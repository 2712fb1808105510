use crate::data_types::DataSet;
use crate::error::{RecvErrorKind, TaskError};
use crate::interval::{window_ending_at, TaskInterval, TimeWindow};
use crate::task::{process_window, Runnable, TaskResult};
use vstd::prelude::*;

verus! {

/// Relies on chrono's `Utc::now` and `DateTime::timestamp`: the system
/// clock's seconds since the Unix epoch. Nothing is promised of the
/// value. `Utc::now` panics on a host whose clock reads before the Unix
/// epoch; that environmental assumption is inherited here.
#[verifier::external_body]
fn clock_now_secs() -> u64 {
    chrono::Utc::now().timestamp() as u64
}

/// Relies on chrono's `Utc::now` and `DateTime::timestamp_millis`: the
/// system clock's milliseconds since the Unix epoch. Nothing is promised
/// of the value. `Utc::now` panics on a host whose clock reads before the
/// Unix epoch; that environmental assumption is inherited here.
#[verifier::external_body]
fn clock_now_millis() -> u64 {
    chrono::Utc::now().timestamp_millis() as u64
}

/// Relies on chrono's `Utc::now` and `DateTime::timestamp_micros`: the
/// system clock's microseconds since the Unix epoch. Nothing is promised
/// of the value. `Utc::now` panics on a host whose clock reads before the
/// Unix epoch; that environmental assumption is inherited here.
#[verifier::external_body]
fn clock_now_micros() -> u64 {
    chrono::Utc::now().timestamp_micros() as u64
}

/// Clock readings expressed in the interval's unit: the microsecond,
/// millisecond or second reading passes through unchanged, and minutes
/// are the whole minutes of the second reading.
pub fn time_in_unit(interval: &TaskInterval, micros: u64, millis: u64, secs: u64) -> (r: u64)
    ensures
        r == (match *interval {
            TaskInterval::Micros(_) => micros,
            TaskInterval::Millis(_) => millis,
            TaskInterval::Seconds(_) => secs,
            TaskInterval::Minutes(_) => secs / 60,
        }),
{
    match interval {
        TaskInterval::Micros(_) => micros,
        TaskInterval::Millis(_) => millis,
        TaskInterval::Seconds(_) => secs,
        TaskInterval::Minutes(_) => secs / 60,
    }
}

/// The current wall-clock time in the interval's unit: what a tick firing
/// now uses as its window end. The readings depend on the clock, so
/// nothing fixes the value; `time_in_unit` fixes how the unit is chosen,
/// and callers hand the result to `consolidator_transition`, which is
/// verified for every value.
pub fn get_current_time(interval: &TaskInterval) -> (r: u64)
    ensures
        interval matches TaskInterval::Minutes(_) ==> r <= u64::MAX / 60,
{
    let micros = clock_now_micros();
    let millis = clock_now_millis();
    let secs = clock_now_secs();
    proof {
        vstd::arithmetic::div_mod::lemma_div_is_ordered(secs as int, u64::MAX as int, 60);
    }
    time_in_unit(interval, micros, millis, secs)
}

/// What the consolidator can observe between ticks.
#[derive(Clone, Copy, Debug, PartialEq, Eq, Structural)]
pub enum ConsolidatorEvent {
    /// The shutdown signal fired.
    Shutdown,
    /// The timer ticked at the given current time, in the interval's unit.
    Tick(u64),
}

/// What the consolidator does in answer to one event.
#[derive(Clone, Copy, Debug, PartialEq, Eq, Structural)]
pub enum ConsolidatorStep {
    /// Leave the tick loop cleanly without starting a new broadcast.
    Stop,
    /// Broadcast this window and collect one result per task.
    StartWindow(TimeWindow),
}

/// What the tick loop decides for one observed event: selecting shutdown
/// over an in-flight tick exits cleanly; a tick at time `now` opens the
/// window that ends at `now` and reaches one interval back.
pub open spec fn consolidator_transition_spec(
    ev: ConsolidatorEvent,
    interval: TaskInterval,
) -> ConsolidatorStep {
    match ev {
        ConsolidatorEvent::Shutdown => ConsolidatorStep::Stop,
        ConsolidatorEvent::Tick(now) => ConsolidatorStep::StartWindow(
            window_ending_at(now, interval),
        ),
    }
}

/// The tick loop's decision for one observed event.
pub fn consolidator_transition(ev: ConsolidatorEvent, interval: &TaskInterval) -> (step:
    ConsolidatorStep)
    requires
        interval.count() >= 1,
        ev matches ConsolidatorEvent::Tick(now) ==> now >= interval.count(),
    ensures
        step == consolidator_transition_spec(ev, *interval),
        ev matches ConsolidatorEvent::Tick(now) ==> window_ending_at(now, *interval).spans(
            *interval,
        ),
{
    match ev {
        ConsolidatorEvent::Shutdown => ConsolidatorStep::Stop,
        ConsolidatorEvent::Tick(now) => {
            let count = interval.as_u64();
            ConsolidatorStep::StartWindow(TimeWindow { start: now - count, end: now })
        },
    }
}

/// Window invariant: when the system keeps pace — the next tick fires
/// exactly one interval after the previous one — consecutive windows are
/// contiguous (each ends where the next begins) and every window is
/// exactly one interval long.
pub proof fn lemma_windows_contiguous(now: u64, interval: TaskInterval)
    requires
        1 <= interval.count() <= now,
        now + interval.count() <= u64::MAX,
    ensures
        window_ending_at(now, interval).end == window_ending_at(
            (now + interval.count()) as u64,
            interval,
        ).start,
        window_ending_at(now, interval).spans(interval),
{
}

/// What one fan-in receive yields during a tick's collection: a task's
/// result, the collection timeout, or a closed result channel.
pub enum RecvEvent<Output> {
    Received(TaskResult<Output>),
    TimedOut,
    Closed,
}

/// One tick's fan-in collection: starting from an empty dataset stamped
/// with the window end, it folds in one receive event at a time until the
/// expected number of results arrived, the channel closed, or a receive
/// timed out.
pub struct Collection<Output> {
    dataset: DataSet<Output>,
    expected: usize,
    received: usize,
    channel_closed: bool,
    timed_out: bool,
}

impl<Output> Collection<Output> {
    pub closed spec fn wf(&self) -> bool {
        self.dataset.wf() && self.received <= self.expected
    }

    /// The mapping collected so far.
    pub closed spec fn dataset_map(&self) -> Map<Seq<char>, Output> {
        self.dataset@
    }

    /// The timestamp the dataset will carry: the window end.
    pub closed spec fn spec_timestamp(&self) -> u64 {
        self.dataset.spec_timestamp()
    }

    /// How many results this tick expects: one per task.
    pub closed spec fn expected(&self) -> int {
        self.expected as int
    }

    /// How many results arrived so far.
    pub closed spec fn received(&self) -> int {
        self.received as int
    }

    /// Whether some receive exceeded the collection timeout.
    pub closed spec fn is_timed_out(&self) -> bool {
        self.timed_out
    }

    /// Whether the result channel closed before every result arrived.
    pub closed spec fn is_channel_closed(&self) -> bool {
        self.channel_closed
    }

    /// What the collection yields once it stops: a timeout is fatal and
    /// yields no dataset; otherwise the dataset as collected.
    pub closed spec fn outcome(self) -> Result<DataSet<Output>, TaskError<Output>> {
        if self.timed_out {
            Err(TaskError::TimeoutError)
        } else {
            Ok(self.dataset)
        }
    }

    /// Opens the collection for a tick whose window ends at `timestamp`
    /// and that expects one result from each of `task_count` tasks.
    pub fn begin(timestamp: u64, task_count: usize) -> (c: Self)
        ensures
            c.wf(),
            c.dataset_map() == Map::<Seq<char>, Output>::empty(),
            c.spec_timestamp() == timestamp,
            c.expected() == task_count,
            c.received() == 0,
            !c.is_timed_out(),
            !c.is_channel_closed(),
    {
        Collection {
            dataset: DataSet::new(timestamp),
            expected: task_count,
            received: 0,
            channel_closed: false,
            timed_out: false,
        }
    }

    /// Whether the loop should wait for another receive event.
    pub fn wants_more(&self) -> (b: bool)
        ensures
            b == (self.received() < self.expected() && !self.is_timed_out()
                && !self.is_channel_closed()),
    {
        self.received < self.expected && !self.timed_out && !self.channel_closed
    }

    /// Folds one receive event into the collection: a result is recorded
    /// under its task's name (last write wins), a timeout marks the whole
    /// collection as timed out, and a closed channel ends it early.
    pub fn step(&mut self, ev: RecvEvent<Output>)
        requires
            old(self).wf(),
            (ev matches RecvEvent::Received(_)) ==> old(self).received() < old(self).expected(),
        ensures
            final(self).wf(),
            final(self).spec_timestamp() == old(self).spec_timestamp(),
            final(self).expected() == old(self).expected(),
            (match ev {
                RecvEvent::Received(tr) => {
                    &&& final(self).dataset_map() == old(self).dataset_map().insert(tr.name@, tr.result)
                    &&& final(self).received() == old(self).received() + 1
                    &&& final(self).is_timed_out() == old(self).is_timed_out()
                    &&& final(self).is_channel_closed() == old(self).is_channel_closed()
                },
                RecvEvent::TimedOut => {
                    &&& final(self).dataset_map() == old(self).dataset_map()
                    &&& final(self).received() == old(self).received()
                    &&& final(self).is_timed_out()
                    &&& final(self).is_channel_closed() == old(self).is_channel_closed()
                },
                RecvEvent::Closed => {
                    &&& final(self).dataset_map() == old(self).dataset_map()
                    &&& final(self).received() == old(self).received()
                    &&& final(self).is_timed_out() == old(self).is_timed_out()
                    &&& final(self).is_channel_closed()
                },
            }),
    {
        match ev {
            RecvEvent::Received(tr) => {
                let TaskResult { name, result } = tr;
                self.dataset.insert(name.as_str(), result);
                self.received = self.received + 1;
            },
            RecvEvent::TimedOut => {
                self.timed_out = true;
            },
            RecvEvent::Closed => {
                self.channel_closed = true;
            },
        }
    }

    /// Ends the collection. A timed-out collection is exactly the fatal
    /// timeout failure and yields no dataset; any other collection yields
    /// the dataset as collected, a closed channel having merely left it
    /// with fewer results than tasks.
    pub fn finish(self) -> (r: Result<DataSet<Output>, TaskError<Output>>)
        requires
            self.wf(),
        ensures
            r == self.outcome(),
            self.is_timed_out() ==> r == Err::<DataSet<Output>, TaskError<Output>>(
                TaskError::TimeoutError,
            ),
            !self.is_timed_out() ==> (r matches Ok(d) && d.wf() && d@ == self.dataset_map()
                && d.spec_timestamp() == self.spec_timestamp()),
    {
        if self.timed_out {
            Err(TaskError::TimeoutError)
        } else {
            Ok(self.dataset)
        }
    }
}

/// The mapping a result list folds into when recorded in order: later
/// results overwrite earlier ones that carry the same name.
pub open spec fn dataset_map_of<Output>(results: Seq<TaskResult<Output>>) -> Map<Seq<char>, Output>
    decreases results.len(),
{
    if results.len() == 0 {
        Map::empty()
    } else {
        dataset_map_of(results.drop_last()).insert(
            results.last().name@,
            results.last().result,
        )
    }
}

/// The set of names a result list carries.
pub open spec fn names_of<Output>(results: Seq<TaskResult<Output>>) -> Set<Seq<char>> {
    Set::new(|k: Seq<char>| exists|i: int| 0 <= i < results.len() && results[i].name@ == k)
}

/// Assembles one tick's dataset from collected results, keyed by task
/// name, last write winning on duplicate names.
#[verifier::loop_isolation(false)]
pub fn consolidate<Output>(timestamp: u64, results: Vec<TaskResult<Output>>) -> (d: DataSet<
    Output,
>)
    ensures
        d.wf(),
        d.spec_timestamp() == timestamp,
        d@ == dataset_map_of(results@),
{
    let ghost orig = results@;
    let mut d = DataSet::new(timestamp);
    let mut rest = results;
    while rest.len() > 0
        invariant
            d.wf(),
            d.spec_timestamp() == timestamp,
            rest@.len() <= orig.len(),
            rest@ == orig.subrange(orig.len() - rest@.len(), orig.len() as int),
            d@ == dataset_map_of(orig.take(orig.len() - rest@.len())),
        decreases rest.len(),
    {
        let ghost k = orig.len() - rest@.len();
        let tr = rest.remove(0);
        proof {
            assert(tr == orig[k]);
            assert(rest@ =~= orig.subrange(k + 1, orig.len() as int));
        }
        let TaskResult { name, result } = tr;
        d.insert(name.as_str(), result);
        proof {
            assert(orig.take(k + 1).drop_last() =~= orig.take(k));
            assert(orig.take(k + 1).last() == orig[k]);
        }
    }
    proof {
        assert(orig.take(orig.len() as int) =~= orig);
    }
    d
}

/// One entry per task: when the collected results carry pairwise distinct
/// names — as they do once every configured task reported exactly once —
/// the assembled dataset holds exactly one entry per result, each mapping
/// that result's name to its output.
pub proof fn lemma_one_entry_per_task<Output>(results: Seq<TaskResult<Output>>)
    requires
        forall|i: int, j: int| 0 <= i < j < results.len() ==> results[i].name@
            != results[j].name@,
    ensures
        dataset_map_of(results).dom() == names_of(results),
        forall|i: int| 0 <= i < results.len() ==> dataset_map_of(results)[(#[trigger] results[i]).name@]
            == results[i].result,
        dataset_map_of(results).dom().finite(),
        dataset_map_of(results).dom().len() == results.len(),
    decreases results.len(),
{
    if results.len() == 0 {
        assert(dataset_map_of(results).dom() =~= names_of(results));
    } else {
        let s0 = results.drop_last();
        let last = results.len() - 1;
        let kl = results.last().name@;
        assert forall|i: int, j: int| 0 <= i < j < s0.len() implies s0[i].name@
            != s0[j].name@ by {
            assert(s0[i] == results[i]);
            assert(s0[j] == results[j]);
        }
        lemma_one_entry_per_task(s0);
        assert(!names_of(s0).contains(kl)) by {
            if names_of(s0).contains(kl) {
                let j = choose|j: int| 0 <= j < s0.len() && s0[j].name@ == kl;
                assert(results[j].name@ != results[last].name@);
            }
        };
        assert(names_of(results) =~= names_of(s0).insert(kl)) by {
            assert forall|k: Seq<char>| names_of(results).contains(k) implies names_of(
                s0,
            ).insert(kl).contains(k) by {
                let j = choose|j: int| 0 <= j < results.len() && results[j].name@ == k;
                if j < last {
                    assert(s0[j] == results[j]);
                    assert(names_of(s0).contains(k));
                }
            }
            assert forall|k: Seq<char>| names_of(s0).contains(k) implies names_of(
                results,
            ).contains(k) by {
                let j = choose|j: int| 0 <= j < s0.len() && s0[j].name@ == k;
                assert(results[j] == s0[j]);
                assert(names_of(results).contains(k));
            }
            assert(results[last].name@ == kl);
            assert(names_of(results).contains(kl));
        };
        assert(dataset_map_of(results).dom() =~= names_of(results));
        assert forall|i: int| 0 <= i < results.len() implies dataset_map_of(results)[(
        #[trigger] results[i]).name@] == results[i].result by {
            if i < last {
                assert(s0[i] == results[i]);
                assert(results[i].name@ != kl);
            }
        }
    }
}

/// The set of names a task list carries.
pub open spec fn task_names_of<Input, Output, T: Runnable<Input, Output>>(tasks: Seq<T>) -> Set<
    Seq<char>,
> {
    Set::new(|k: Seq<char>| exists|i: int| 0 <= i < tasks.len() && tasks[i].spec_name() == k)
}

/// One entry per configured task: when every task reported exactly once
/// under its own name — as `run_tick` guarantees on success — and task
/// names are pairwise distinct, the assembled dataset holds exactly one
/// entry per task, mapping each task's name to the result it reported.
pub proof fn lemma_dataset_covers_tasks<Input, Output, T: Runnable<Input, Output>>(
    tasks: Seq<T>,
    results: Seq<TaskResult<Output>>,
)
    requires
        results.len() == tasks.len(),
        forall|i: int| 0 <= i < tasks.len() ==> (#[trigger] results[i]).name@
            == tasks[i].spec_name(),
        forall|i: int, j: int| 0 <= i < j < tasks.len() ==> tasks[i].spec_name()
            != tasks[j].spec_name(),
    ensures
        dataset_map_of(results).dom() == task_names_of(tasks),
        forall|i: int| 0 <= i < tasks.len() ==> dataset_map_of(results)[(#[trigger] tasks[i]).spec_name()]
            == results[i].result,
        dataset_map_of(results).dom().finite(),
        dataset_map_of(results).dom().len() == tasks.len(),
{
    assert forall|i: int, j: int| 0 <= i < j < results.len() implies results[i].name@
        != results[j].name@ by {
        assert(results[i].name@ == tasks[i].spec_name());
        assert(results[j].name@ == tasks[j].spec_name());
    }
    lemma_one_entry_per_task(results);
    assert(names_of(results) =~= task_names_of(tasks)) by {
        assert forall|k: Seq<char>| names_of(results).contains(k) implies task_names_of(
            tasks,
        ).contains(k) by {
            let i = choose|i: int| 0 <= i < results.len() && results[i].name@ == k;
            assert(tasks[i].spec_name() == k);
        }
        assert forall|k: Seq<char>| task_names_of(tasks).contains(k) implies names_of(
            results,
        ).contains(k) by {
            let i = choose|i: int| 0 <= i < tasks.len() && tasks[i].spec_name() == k;
            assert(results[i].name@ == k);
        }
    };
    assert forall|i: int| 0 <= i < tasks.len() implies dataset_map_of(results)[(
    #[trigger] tasks[i]).spec_name()] == results[i].result by {
        assert(results[i].name@ == tasks[i].spec_name());
    }
}

/// Runs every task of a tick on the same snapshot of the shared input, in
/// order, stopping at the first failure: the sequential meaning of the
/// fan-out. On success there is exactly one result per task, carrying that
/// task's name and computed output; on failure the first failing task's
/// error surfaces and no result list is produced.
#[verifier::loop_isolation(false)]
pub fn run_tick<Input, Output, T: Runnable<Input, Output>>(
    tasks: &Vec<T>,
    data: &Input,
    window: TimeWindow,
) -> (r: Result<Vec<TaskResult<Output>>, TaskError<Output>>)
    ensures
        match r {
            Ok(results) => results@.len() == tasks@.len() && (forall|i: int|
                0 <= i < tasks@.len() ==> (#[trigger] tasks@[i]).spec_run(
                    data,
                    window.start,
                    window.end,
                ) == Ok::<Output, TaskError<Output>>(results@[i].result)) && (forall|i: int|
                0 <= i < tasks@.len() ==> (#[trigger] results@[i]).name@
                    == tasks@[i].spec_name()),
            Err(e) => exists|i: int|
                0 <= i < tasks@.len() && (#[trigger] tasks@[i]).spec_run(
                    data,
                    window.start,
                    window.end,
                ) == Err::<Output, TaskError<Output>>(e) && (forall|j: int|
                    0 <= j < i ==> (#[trigger] tasks@[j]).spec_run(data, window.start, window.end)
                        is Ok),
        },
{
    let mut results: Vec<TaskResult<Output>> = Vec::new();
    let mut idx: usize = 0;
    while idx < tasks.len()
        invariant
            0 <= idx <= tasks@.len(),
            results@.len() == idx,
            forall|i: int| 0 <= i < idx ==> (#[trigger] tasks@[i]).spec_run(
                data,
                window.start,
                window.end,
            ) == Ok::<Output, TaskError<Output>>(results@[i].result),
            forall|i: int| 0 <= i < idx ==> (#[trigger] results@[i]).name@
                == tasks@[i].spec_name(),
        decreases tasks@.len() - idx,
    {
        match process_window(&tasks[idx], data, window) {
            Ok(tr) => {
                results.push(tr);
            },
            Err(e) => {
                return Err(e);
            },
        }
        idx += 1;
    }
    Ok(results)
}

/// What `run` reports once every component finished: the first failure any
/// worker reported, else the consolidator's failure, else success.
pub open spec fn first_error_spec<Output>(
    workers: Seq<Result<(), TaskError<Output>>>,
    consolidator: Result<(), TaskError<Output>>,
) -> Result<(), TaskError<Output>>
    decreases workers.len(),
{
    if workers.len() == 0 {
        consolidator
    } else if workers.first() is Err {
        workers.first()
    } else {
        first_error_spec(workers.drop_first(), consolidator)
    }
}

/// The runner's supervision outcome over the components' results.
#[verifier::loop_isolation(false)]
pub fn first_error<Output>(
    worker_results: Vec<Result<(), TaskError<Output>>>,
    consolidator_result: Result<(), TaskError<Output>>,
) -> (r: Result<(), TaskError<Output>>)
    ensures
        r == first_error_spec(worker_results@, consolidator_result),
{
    let ghost orig = worker_results@;
    let mut rest = worker_results;
    while rest.len() > 0
        invariant
            first_error_spec(rest@, consolidator_result) == first_error_spec(
                orig,
                consolidator_result,
            ),
        decreases rest.len(),
    {
        let ghost before = rest@;
        let x = rest.remove(0);
        proof {
            assert(rest@ =~= before.drop_first());
        }
        match x {
            Ok(_) => {},
            Err(e) => {
                return Err(e);
            },
        }
    }
    consolidator_result
}

/// When every worker stopped cleanly, the run's result is exactly the
/// consolidator's.
pub proof fn lemma_first_error_all_ok<Output>(
    workers: Seq<Result<(), TaskError<Output>>>,
    consolidator: Result<(), TaskError<Output>>,
)
    requires
        forall|i: int| 0 <= i < workers.len() ==> (#[trigger] workers[i]) is Ok,
    ensures
        first_error_spec(workers, consolidator) == consolidator,
    decreases workers.len(),
{
    if workers.len() > 0 {
        assert(workers.first() is Ok);
        assert forall|i: int| 0 <= i < workers.drop_first().len() implies (#[trigger] workers.drop_first()[i]) is Ok by {
            assert(workers.drop_first()[i] == workers[i + 1]);
        }
        lemma_first_error_all_ok(workers.drop_first(), consolidator);
    }
}

/// A worker result that reports a failure of the worker's own. A closed
/// window subscription or a refused hand-off to the fan-in channel is not
/// one: each only tells the worker that the consolidator already stopped,
/// so it never precedes the consolidator's own failure.
pub open spec fn is_primary_failure<Output>(r: Result<(), TaskError<Output>>) -> bool {
    match r {
        Ok(_) => false,
        Err(e) => match e {
            TaskError::RecvError(RecvErrorKind::Closed) => false,
            TaskError::TaskSendError(_) => false,
            _ => true,
        },
    }
}

/// The first failure among the workers' results that is their own, if any.
pub open spec fn first_primary_failure<Output>(
    workers: Seq<Result<(), TaskError<Output>>>,
) -> Option<TaskError<Output>>
    decreases workers.len(),
{
    if workers.len() == 0 {
        None
    } else if is_primary_failure(workers.first()) {
        match workers.first() {
            Ok(_) => None,
            Err(e) => Some(e),
        }
    } else {
        first_primary_failure(workers.drop_first())
    }
}

/// What `run` reports: the temporally first fatal error. When the
/// consolidator failed, any worker failure of the workers' own preceded
/// and caused it, so the first such failure stands; failing that, the
/// consolidator's error. When the consolidator stopped cleanly, the first
/// worker failure, else success.
pub open spec fn supervision_spec<Output>(
    workers: Seq<Result<(), TaskError<Output>>>,
    consolidator: Result<(), TaskError<Output>>,
) -> Result<(), TaskError<Output>> {
    match consolidator {
        Ok(_) => first_error_spec(workers, Ok(())),
        Err(ce) => match first_primary_failure(workers) {
            Some(we) => Err(we),
            None => Err(ce),
        },
    }
}

/// The runner's supervision verdict over the components' results.
#[verifier::loop_isolation(false)]
pub fn supervise<Output>(
    worker_results: Vec<Result<(), TaskError<Output>>>,
    consolidator_result: Result<(), TaskError<Output>>,
) -> (r: Result<(), TaskError<Output>>)
    ensures
        r == supervision_spec(worker_results@, consolidator_result),
{
    match consolidator_result {
        Ok(u) => first_error(worker_results, Ok(u)),
        Err(ce) => {
            let ghost orig = worker_results@;
            let mut rest = worker_results;
            while rest.len() > 0
                invariant
                    first_primary_failure(rest@) == first_primary_failure(orig),
                decreases rest.len(),
            {
                let ghost before = rest@;
                let x = rest.remove(0);
                proof {
                    assert(rest@ =~= before.drop_first());
                }
                match x {
                    Ok(_) => {},
                    Err(TaskError::RecvError(RecvErrorKind::Closed)) => {},
                    Err(TaskError::TaskSendError(_)) => {},
                    Err(e) => {
                        return Err(e);
                    },
                }
            }
            Err(ce)
        },
    }
}

/// When no worker failed on its own, there is no primary failure.
pub proof fn lemma_no_primary_failure<Output>(workers: Seq<Result<(), TaskError<Output>>>)
    requires
        forall|i: int| 0 <= i < workers.len() ==> !is_primary_failure(#[trigger] workers[i]),
    ensures
        first_primary_failure(workers) is None,
    decreases workers.len(),
{
    if workers.len() > 0 {
        assert(!is_primary_failure(workers.first()));
        assert forall|i: int| 0 <= i < workers.drop_first().len() implies !is_primary_failure(
            #[trigger] workers.drop_first()[i],
        ) by {
            assert(workers.drop_first()[i] == workers[i + 1]);
        }
        lemma_no_primary_failure(workers.drop_first());
    }
}

/// Timeout law: a collection that observed a timeout yields no dataset —
/// its outcome is exactly the timeout failure — and the run reports that
/// failure whenever no worker failed on its own first: a worker that
/// never responds reports nothing, and the others at most observe the
/// consolidator's stop.
pub proof fn lemma_timeout_fatal<Output>(
    c: Collection<Output>,
    workers: Seq<Result<(), TaskError<Output>>>,
)
    requires
        c.is_timed_out(),
        forall|i: int| 0 <= i < workers.len() ==> !is_primary_failure(#[trigger] workers[i]),
    ensures
        c.outcome() == Err::<DataSet<Output>, TaskError<Output>>(TaskError::TimeoutError),
        supervision_spec(workers, Err(TaskError::TimeoutError)) == Err::<(), TaskError<Output>>(
            TaskError::TimeoutError,
        ),
{
    lemma_no_primary_failure(workers);
}

/// Shutdown law: once the shutdown signal is observed, the consolidator
/// stops without opening another window — so no further dataset is
/// assembled or forwarded — every worker stops cleanly, and a run whose
/// components all stopped cleanly returns success.
pub proof fn lemma_shutdown_clean<Output>(
    interval: TaskInterval,
    workers: Seq<Result<(), TaskError<Output>>>,
)
    requires
        forall|i: int| 0 <= i < workers.len() ==> (#[trigger] workers[i]) is Ok,
    ensures
        consolidator_transition_spec(ConsolidatorEvent::Shutdown, interval)
            == ConsolidatorStep::Stop,
        crate::task::worker_transition_spec::<Output>(crate::task::WorkerEvent::Shutdown)
            == crate::task::WorkerStep::<Output>::Stop,
        supervision_spec(workers, Ok(())) == Ok::<(), TaskError<Output>>(()),
{
    lemma_first_error_all_ok(workers, Ok(()));
}

/// What `shutdown` reports: success exactly when the stop signal reached
/// a subscriber; delivery to nobody is the shutdown failure, with the
/// given detail. Delivery is all it reports — not whether workers have
/// drained their in-flight work.
pub fn shutdown_outcome<Output>(delivered: bool, detail: String) -> (r: Result<
    (),
    TaskError<Output>,
>)
    ensures
        delivered ==> r == Ok::<(), TaskError<Output>>(()),
        !delivered ==> r == Err::<(), TaskError<Output>>(TaskError::ShutdownError(detail)),
{
    if delivered {
        Ok(())
    } else {
        Err(TaskError::ShutdownError(detail))
    }
}

/// The runner's lifecycle: it starts idle, runs once, and ends in exactly
/// one of two terminal states.
#[derive(Clone, Copy, Debug, PartialEq, Eq, Structural)]
pub enum RunnerState {
    Idle,
    Running,
    ShuttingDown,
    Stopped,
    Failed,
}

/// What moves the runner between lifecycle states.
#[derive(Clone, Copy, Debug, PartialEq, Eq, Structural)]
pub enum RunnerEvent {
    /// `run` was called.
    Started,
    /// `shutdown` delivered the stop signal.
    ShutdownRequested,
    /// Some worker or the consolidator reported a fatal error.
    ComponentFailed,
    /// Every worker and the consolidator finished after a shutdown.
    Drained,
}

/// The runner's state machine: running begins only from idle, shutting
/// down only by an explicit shutdown request, failure only from running,
/// and a stop only once a shutdown has drained. Any other event leaves
/// the state unchanged; the two terminal states never move again.
pub open spec fn runner_transition_spec(s: RunnerState, ev: RunnerEvent) -> RunnerState {
    match (s, ev) {
        (RunnerState::Idle, RunnerEvent::Started) => RunnerState::Running,
        (RunnerState::Running, RunnerEvent::ShutdownRequested) => RunnerState::ShuttingDown,
        (RunnerState::Running, RunnerEvent::ComponentFailed) => RunnerState::Failed,
        (RunnerState::ShuttingDown, RunnerEvent::Drained) => RunnerState::Stopped,
        _ => s,
    }
}

/// Whether the lifecycle has ended.
pub open spec fn is_terminal(s: RunnerState) -> bool {
    s is Stopped || s is Failed
}

/// One lifecycle move.
pub fn runner_transition(s: RunnerState, ev: RunnerEvent) -> (t: RunnerState)
    ensures
        t == runner_transition_spec(s, ev),
        is_terminal(s) ==> t == s,
{
    match (s, ev) {
        (RunnerState::Idle, RunnerEvent::Started) => RunnerState::Running,
        (RunnerState::Running, RunnerEvent::ShutdownRequested) => RunnerState::ShuttingDown,
        (RunnerState::Running, RunnerEvent::ComponentFailed) => RunnerState::Failed,
        (RunnerState::ShuttingDown, RunnerEvent::Drained) => RunnerState::Stopped,
        _ => s,
    }
}

} // verus!
