use run_task::consolidator_transition;
use run_task::first_error;
use run_task::supervise;
use run_task::time_in_unit;
use run_task::get_current_time;
use run_task::process_window;
use run_task::run_tick;
use run_task::runner_transition;
use run_task::worker_transition;
use run_task::Collection;
use run_task::ConsolidatorEvent;
use run_task::ConsolidatorStep;
use run_task::MultiplierTask;
use run_task::RecvErrorKind;
use run_task::RecvEvent;
use run_task::RunnerEvent;
use run_task::RunnerState;
use run_task::TaskError;
use run_task::TaskInterval;
use run_task::TaskResult;
use run_task::TimeWindow;
use run_task::WorkerEvent;
use run_task::WorkerStep;

#[test]
fn test_collection_completes() {
    let mut collection: Collection<i64> = Collection::begin(200, 2);
    assert!(collection.wants_more());
    collection.step(RecvEvent::Received(TaskResult { name: "a".to_string(), result: 1 }));
    assert!(collection.wants_more());
    collection.step(RecvEvent::Received(TaskResult { name: "b".to_string(), result: 2 }));
    assert!(!collection.wants_more());
    let dataset = collection.finish().unwrap();
    assert_eq!(dataset.timestamp, 200);
    assert_eq!(dataset.len(), 2);
    assert_eq!(dataset.get("a"), Some(&1));
    assert_eq!(dataset.get("b"), Some(&2));
}

#[test]
fn test_collection_timeout_is_fatal() {
    let mut collection: Collection<i64> = Collection::begin(200, 2);
    collection.step(RecvEvent::Received(TaskResult { name: "a".to_string(), result: 1 }));
    collection.step(RecvEvent::TimedOut);
    assert!(!collection.wants_more());
    let outcome = collection.finish();
    assert!(matches!(outcome, Err(TaskError::TimeoutError)));
}

#[test]
fn test_collection_closed_channel_ends_early() {
    let mut collection: Collection<i64> = Collection::begin(200, 3);
    collection.step(RecvEvent::Received(TaskResult { name: "a".to_string(), result: 1 }));
    collection.step(RecvEvent::Closed);
    assert!(!collection.wants_more());
    let dataset = collection.finish().unwrap();
    assert_eq!(dataset.len(), 1);
    assert_eq!(dataset.get("a"), Some(&1));
}

#[test]
fn test_failing_task_aborts_tick() {
    // A task whose run fails: multiplying the largest input overflows.
    let data: i64 = i64::MAX;
    let tasks = vec![MultiplierTask::new("overflowing".to_string(), 2)];
    let window = TimeWindow { start: 100, end: 200 };
    let outcome = run_tick(&tasks, &data, window);
    assert!(matches!(outcome, Err(TaskError::TaskError(_))));
}

#[test]
fn test_process_window_tags_result() {
    let data: i64 = 6;
    let task = MultiplierTask::new("seven".to_string(), 7);
    let window = TimeWindow { start: 0, end: 1 };
    let result = process_window(&task, &data, window).unwrap();
    assert_eq!(result.name, "seven");
    assert_eq!(result.result, 42);
}

#[test]
fn test_worker_transitions() {
    assert!(matches!(worker_transition::<i64>(WorkerEvent::Shutdown), WorkerStep::Stop));
    let window = TimeWindow { start: 1, end: 2 };
    match worker_transition::<i64>(WorkerEvent::Window(window)) {
        WorkerStep::Compute(w) => assert_eq!(w, window),
        _ => panic!("a window must be computed"),
    }
    assert!(matches!(worker_transition::<i64>(WorkerEvent::ReadTimedOut), WorkerStep::Skip));
    match worker_transition::<i64>(WorkerEvent::RecvFailed(RecvErrorKind::Lagged(3))) {
        WorkerStep::Abort(TaskError::RecvError(RecvErrorKind::Lagged(n))) => assert_eq!(n, 3),
        _ => panic!("a lagged subscription is fatal"),
    }
    assert!(matches!(
        worker_transition::<i64>(WorkerEvent::RecvFailed(RecvErrorKind::Closed)),
        WorkerStep::Abort(TaskError::RecvError(RecvErrorKind::Closed))
    ));
}

#[test]
fn test_consolidator_transitions() {
    let interval = TaskInterval::Seconds(5);
    assert_eq!(
        consolidator_transition(ConsolidatorEvent::Shutdown, &interval),
        ConsolidatorStep::Stop
    );
    assert_eq!(
        consolidator_transition(ConsolidatorEvent::Tick(100), &interval),
        ConsolidatorStep::StartWindow(TimeWindow { start: 95, end: 100 })
    );
}

#[test]
fn test_shutdown() {
    // Shutdown right after start: the consolidator stops before any
    // broadcast, workers stop cleanly, and the run reports success.
    let interval = TaskInterval::Millis(100);
    assert_eq!(
        consolidator_transition(ConsolidatorEvent::Shutdown, &interval),
        ConsolidatorStep::Stop
    );
    assert!(matches!(worker_transition::<i64>(WorkerEvent::Shutdown), WorkerStep::Stop));
    let outcome = first_error::<i64>(vec![Ok(()), Ok(())], Ok(()));
    assert!(outcome.is_ok());
}

#[test]
fn test_first_error_reports_first_failure() {
    let outcome = first_error::<i64>(
        vec![Ok(()), Err(TaskError::JoinError("one".to_string())), Err(TaskError::TimeoutError)],
        Ok(()),
    );
    match outcome {
        Err(TaskError::JoinError(msg)) => assert_eq!(msg, "one"),
        _ => panic!("the first worker failure must surface"),
    }
}

#[test]
fn test_first_error_falls_back_to_consolidator() {
    let outcome = first_error::<i64>(vec![Ok(()), Ok(())], Err(TaskError::TimeoutError));
    assert!(matches!(outcome, Err(TaskError::TimeoutError)));
}

#[test]
fn test_runner_lifecycle() {
    let state = RunnerState::Idle;
    let state = runner_transition(state, RunnerEvent::Started);
    assert_eq!(state, RunnerState::Running);
    let state = runner_transition(state, RunnerEvent::ShutdownRequested);
    assert_eq!(state, RunnerState::ShuttingDown);
    let state = runner_transition(state, RunnerEvent::Drained);
    assert_eq!(state, RunnerState::Stopped);
    assert_eq!(runner_transition(state, RunnerEvent::Started), RunnerState::Stopped);

    let failed = runner_transition(RunnerState::Running, RunnerEvent::ComponentFailed);
    assert_eq!(failed, RunnerState::Failed);
    assert_eq!(runner_transition(failed, RunnerEvent::Drained), RunnerState::Failed);
}

#[test]
fn test_supervise_timeout_not_masked() {
    // Workers that only observed the consolidator's stop do not hide the
    // timeout that caused it.
    let workers: Vec<Result<(), TaskError<i64>>> = vec![
        Ok(()),
        Err(TaskError::RecvError(RecvErrorKind::Closed)),
        Err(TaskError::TaskSendError(TaskResult { name: "late".to_string(), result: 1 })),
    ];
    let verdict = supervise(workers, Err(TaskError::TimeoutError));
    assert!(matches!(verdict, Err(TaskError::TimeoutError)));
}

#[test]
fn test_supervise_worker_failure_first() {
    // A task failure precedes the timeout it caused and takes precedence.
    let workers: Vec<Result<(), TaskError<i64>>> = vec![
        Err(TaskError::RecvError(RecvErrorKind::Closed)),
        Err(TaskError::TaskError("boom".to_string())),
    ];
    let verdict = supervise(workers, Err(TaskError::TimeoutError));
    match verdict {
        Err(TaskError::TaskError(msg)) => assert_eq!(msg, "boom"),
        _ => panic!("the worker's own failure must surface"),
    }
}

#[test]
fn test_supervise_clean_run() {
    let verdict = supervise::<i64>(vec![Ok(()), Ok(())], Ok(()));
    assert!(verdict.is_ok());
    let verdict = supervise::<i64>(vec![Ok(()), Err(TaskError::TimeoutError)], Ok(()));
    assert!(matches!(verdict, Err(TaskError::TimeoutError)));
}

#[test]
fn test_time_in_unit() {
    assert_eq!(time_in_unit(&TaskInterval::Micros(10), 7_000_000, 7_000, 7), 7_000_000);
    assert_eq!(time_in_unit(&TaskInterval::Millis(10), 7_000_000, 7_000, 7), 7_000);
    assert_eq!(time_in_unit(&TaskInterval::Seconds(10), 7_000_000, 7_000, 7), 7);
    assert_eq!(time_in_unit(&TaskInterval::Minutes(10), 7_000_000, 7_000, 150), 2);
}

#[test]
fn test_clock_progresses() {
    // The clock reads after the start of 2020 in every unit.
    let secs = get_current_time(&TaskInterval::Seconds(1));
    let millis = get_current_time(&TaskInterval::Millis(1));
    let minutes = get_current_time(&TaskInterval::Minutes(1));
    assert!(secs > 1_577_836_800);
    assert!(millis > 1_577_836_800_000);
    assert!(minutes > 26_297_280);
    assert!(minutes <= secs);
}
