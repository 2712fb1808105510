use crate::data_types::DataSet;
use crate::task::TaskResult;
use vstd::prelude::*;

verus! {

/// Why a broadcast subscription stopped yielding time windows: the channel
/// was closed, or this subscriber lagged so far behind the bounded buffer
/// that it missed the given number of windows for good.
#[derive(Clone, Copy, Debug, PartialEq, Eq, Structural)]
pub enum RecvErrorKind {
    Closed,
    Lagged(u64),
}

/// The closed set of failures the scheduling core propagates. Every kind is
/// fatal to the run that observes it: nothing is retried internally.
#[derive(Debug)]
pub enum TaskError<Output> {
    /// A task's own computation returned an application error.
    TaskError(String),
    /// A worker could not hand its result to the fan-in channel; the unsent
    /// result is carried along.
    TaskSendError(TaskResult<Output>),
    /// The consolidator could not hand a finished dataset downstream; the
    /// unsent dataset is carried along.
    DataSetSendError(DataSet<Output>),
    /// A worker's window subscription lagged or closed.
    RecvError(RecvErrorKind),
    /// A spawned worker or the consolidator terminated abnormally.
    JoinError(String),
    /// A time window could not be broadcast to any worker.
    BroadcastError(String),
    /// The shutdown signal could not be delivered.
    ShutdownError(String),
    /// A tick's fan-in collection exceeded the configured timeout.
    TimeoutError,
}

} // verus!
