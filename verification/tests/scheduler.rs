use run_task::consolidate;
use run_task::consolidator_transition;
use run_task::run_tick;
use run_task::ConsolidatorEvent;
use run_task::ConsolidatorStep;
use run_task::MultiplierTask;
use run_task::TaskInterval;
use run_task::TimeWindow;

fn tick_window(now: u64, interval: &TaskInterval) -> TimeWindow {
    match consolidator_transition(ConsolidatorEvent::Tick(now), interval) {
        ConsolidatorStep::StartWindow(w) => w,
        ConsolidatorStep::Stop => panic!("a tick never stops the loop"),
    }
}

#[test]
fn test_single_task() {
    let data: i64 = 42;
    let task = MultiplierTask::new("TestTask_2".to_string(), 2);
    let interval = TaskInterval::Millis(100);

    let window = tick_window(200, &interval);
    assert_eq!(window.start, 100);
    assert_eq!(window.end, 200);

    let results = run_tick(&vec![task], &data, window).unwrap();
    let dataset = consolidate(window.end, results);
    assert_eq!(dataset.get("TestTask_2"), Some(&84));
}

#[test]
fn test_multiple_tasks() {
    let data: i64 = 10;
    let task1 = MultiplierTask::new("TestTask_2".to_string(), 2);
    let task2 = MultiplierTask::new("TestTask_3".to_string(), 3);
    let interval = TaskInterval::Millis(100);

    let window = tick_window(200, &interval);
    let results = run_tick(&vec![task1, task2], &data, window).unwrap();
    let dataset = consolidate(window.end, results);

    assert_eq!(dataset.get("TestTask_2"), Some(&20));
    assert_eq!(dataset.get("TestTask_3"), Some(&30));
    assert_eq!(dataset.len(), 2);
}

#[test]
fn test_data_update() {
    let mut data: i64 = 10;
    let tasks = vec![MultiplierTask::new("TestTask_2".to_string(), 2)];
    let interval = TaskInterval::Millis(100);

    let window1 = tick_window(200, &interval);
    let results1 = run_tick(&tasks, &data, window1).unwrap();
    let dataset1 = consolidate(window1.end, results1);
    assert_eq!(dataset1.get("TestTask_2"), Some(&20));

    data = 20;

    let window2 = tick_window(300, &interval);
    assert_eq!(window1.end, window2.start);
    let results2 = run_tick(&tasks, &data, window2).unwrap();
    let dataset2 = consolidate(window2.end, results2);
    assert_eq!(dataset2.get("TestTask_2"), Some(&40));
}

#[test]
fn test_two_multipliers_first_dataset() {
    let data: i64 = 10;
    let tasks = vec![
        MultiplierTask::new("task_2".to_string(), 2),
        MultiplierTask::new("task_3".to_string(), 3),
    ];
    let interval = TaskInterval::Millis(100);
    let window = tick_window(100, &interval);
    assert_eq!(window.start, 0);
    let results = run_tick(&tasks, &data, window).unwrap();
    let dataset = consolidate(window.end, results);
    assert_eq!(dataset.get("task_2"), Some(&20));
    assert_eq!(dataset.get("task_3"), Some(&30));
    assert_eq!(dataset.len(), 2);
}

#[test]
fn test_same_snapshot_same_outputs() {
    // Every task of one tick reads the same snapshot: equal multipliers
    // give equal outputs within the tick, whatever the task's name.
    let data: i64 = 7;
    let tasks = vec![
        MultiplierTask::new("left".to_string(), 5),
        MultiplierTask::new("right".to_string(), 5),
    ];
    let interval = TaskInterval::Millis(100);
    let window = tick_window(1000, &interval);
    let results = run_tick(&tasks, &data, window).unwrap();
    let dataset = consolidate(window.end, results);
    assert_eq!(dataset.get("left"), dataset.get("right"));
    assert_eq!(dataset.get("left"), Some(&35));
}
