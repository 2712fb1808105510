use crate::error::{RecvErrorKind, TaskError};
use crate::interval::TimeWindow;
use vstd::prelude::*;

verus! {

/// The capability every schedulable unit implements: a stable name and a
/// computation from (shared input snapshot, window start, window end) to an
/// output or a task error. A task is a function of those three arguments
/// alone; any internal state belongs to the implementation, not the core.
pub trait Runnable<Input, Output>: Send + Sync {
    /// The name under which the task's output is keyed in a dataset.
    spec fn spec_name(&self) -> Seq<char>;

    /// What the task computes for a snapshot and a window.
    spec fn spec_run(&self, data: &Input, start: u64, end: u64) -> Result<
        Output,
        TaskError<Output>,
    >;

    fn name(&self) -> (r: String)
        ensures
            r@ == self.spec_name(),
    ;

    fn run(&self, data: &Input, start: u64, end: u64) -> (r: Result<Output, TaskError<Output>>)
        ensures
            r == self.spec_run(data, start, end),
    ;
}

/// A ready-made task: it multiplies the shared input by a fixed factor
/// and keys the product under its configured name. On overflow it fails
/// with a task error carrying that name.
#[derive(Clone, Debug)]
pub struct MultiplierTask {
    pub name: String,
    pub multiplier: i64,
}

impl MultiplierTask {
    /// A task that records `input * multiplier` under `name`.
    pub fn new(name: String, multiplier: i64) -> (t: Self)
        ensures
            t.name == name,
            t.multiplier == multiplier,
    {
        MultiplierTask { name, multiplier }
    }
}

impl Runnable<i64, i64> for MultiplierTask {
    open spec fn spec_name(&self) -> Seq<char> {
        self.name@
    }

    open spec fn spec_run(&self, data: &i64, start: u64, end: u64) -> Result<i64, TaskError<i64>> {
        if *data * self.multiplier > i64::MAX || *data * self.multiplier < i64::MIN {
            Err(TaskError::TaskError(self.name))
        } else {
            Ok((*data * self.multiplier) as i64)
        }
    }

    fn name(&self) -> (r: String)
        ensures
            r@ == self.spec_name(),
    {
        self.name.clone()
    }

    fn run(&self, data: &i64, start: u64, end: u64) -> (r: Result<i64, TaskError<i64>>)
        ensures
            r == self.spec_run(data, start, end),
    {
        match data.checked_mul(self.multiplier) {
            Some(v) => Ok(v),
            None => Err(TaskError::TaskError(self.name.clone())),
        }
    }
}

/// One worker's output for one window, tagged with its task's stable name.
#[derive(Debug)]
pub struct TaskResult<Output> {
    pub name: String,
    pub result: Output,
}

/// What a waiting worker can observe: the shutdown signal, the next
/// broadcast time window, or the failure of its window subscription.
#[derive(Clone, Copy, Debug, PartialEq, Eq, Structural)]
pub enum WorkerEvent {
    Shutdown,
    Window(TimeWindow),
    /// The shared input could not be read within the timeout for the
    /// window just received.
    ReadTimedOut,
    RecvFailed(RecvErrorKind),
}

/// What a worker does in answer to one event.
pub enum WorkerStep<Output> {
    /// Stop cleanly; no partial result is emitted for an in-flight window.
    Stop,
    /// Read the shared input and run the task over this window.
    Compute(TimeWindow),
    /// Abandon the current window's work without failing and wait for the
    /// next broadcast.
    Skip,
    /// Abort the run with a fatal error.
    Abort(TaskError<Output>),
}

/// What the worker loop decides for one observed event: shutdown stops the
/// worker at once, a broadcast window is computed, an unreadable snapshot
/// only forfeits that window, and a lagged or closed subscription is
/// fatal — there is no catch-up policy.
pub open spec fn worker_transition_spec<Output>(ev: WorkerEvent) -> WorkerStep<Output> {
    match ev {
        WorkerEvent::Shutdown => WorkerStep::Stop,
        WorkerEvent::Window(w) => WorkerStep::Compute(w),
        WorkerEvent::ReadTimedOut => WorkerStep::Skip,
        WorkerEvent::RecvFailed(k) => WorkerStep::Abort(TaskError::RecvError(k)),
    }
}

/// The worker loop's decision for one observed event.
pub fn worker_transition<Output>(ev: WorkerEvent) -> (step: WorkerStep<Output>)
    ensures
        step == worker_transition_spec::<Output>(ev),
{
    match ev {
        WorkerEvent::Shutdown => WorkerStep::Stop,
        WorkerEvent::Window(w) => WorkerStep::Compute(w),
        WorkerEvent::ReadTimedOut => WorkerStep::Skip,
        WorkerEvent::RecvFailed(k) => WorkerStep::Abort(TaskError::RecvError(k)),
    }
}

/// One worker's handling of one window, applied to the snapshot it read:
/// run the task and tag its output with the task's name; a task error is
/// fatal and propagates unchanged (fail-fast, no retry).
pub fn process_window<Input, Output, T: Runnable<Input, Output> + ?Sized>(
    task: &T,
    data: &Input,
    window: TimeWindow,
) -> (r: Result<TaskResult<Output>, TaskError<Output>>)
    ensures
        match r {
            Ok(tr) => task.spec_run(data, window.start, window.end) == Ok::<
                Output,
                TaskError<Output>,
            >(tr.result) && tr.name@ == task.spec_name(),
            Err(e) => task.spec_run(data, window.start, window.end) == Err::<
                Output,
                TaskError<Output>,
            >(e),
        },
{
    match task.run(data, window.start, window.end) {
        Ok(result) => Ok(TaskResult { name: task.name(), result }),
        Err(e) => Err(e),
    }
}

} // verus!
