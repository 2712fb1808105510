use vstd::prelude::*;

verus! {

/// Channel capacities and the fan-in collection timeout, fixed for a
/// runner's lifetime. The fields govern backpressure and how long one
/// tick may wait for its results, never what a tick computes.
#[derive(Clone, Debug)]
pub struct RunnerConfig {
    /// Capacity of the downstream dataset channel.
    pub task_channel_capacity: usize,
    /// Capacity of the window-broadcast buffer: how far behind a worker may
    /// lag before its subscription reports an overrun.
    pub broadcast_channel_capacity: usize,
    /// Upper bound, in milliseconds, on waiting for any one task result
    /// during a tick's fan-in collection.
    pub collection_timeout_millis: u64,
}

impl RunnerConfig {
    pub fn new(
        task_channel_capacity: usize,
        broadcast_channel_capacity: usize,
        collection_timeout_millis: u64,
    ) -> (c: Self)
        ensures
            c.task_channel_capacity == task_channel_capacity,
            c.broadcast_channel_capacity == broadcast_channel_capacity,
            c.collection_timeout_millis == collection_timeout_millis,
    {
        Self { task_channel_capacity, broadcast_channel_capacity, collection_timeout_millis }
    }
}

impl Default for RunnerConfig {
    fn default() -> (c: Self)
        ensures
            c.task_channel_capacity == 1024,
            c.broadcast_channel_capacity == 16,
            c.collection_timeout_millis == 5000,
    {
        Self {
            task_channel_capacity: 1024,
            broadcast_channel_capacity: 16,
            collection_timeout_millis: 5000,
        }
    }
}

} // verus!
