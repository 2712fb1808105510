use run_task::RunnerConfig;
use run_task::TaskInterval;

#[test]
fn test_micros_conversions() {
    let interval = TaskInterval::Micros(1_500_000);
    assert_eq!(interval.as_micros(), 1_500_000);
    assert_eq!(interval.as_millis(), 1_500);
    assert_eq!(interval.as_secs(), 1);
    assert_eq!(interval.as_u64(), 1_500_000);
}

#[test]
fn test_millis_conversions() {
    let interval = TaskInterval::Millis(2_500);
    assert_eq!(interval.as_micros(), 2_500_000);
    assert_eq!(interval.as_millis(), 2_500);
    assert_eq!(interval.as_secs(), 2);
    assert_eq!(interval.as_u64(), 2_500);
}

#[test]
fn test_seconds_conversions() {
    let interval = TaskInterval::Seconds(3);
    assert_eq!(interval.as_micros(), 3_000_000);
    assert_eq!(interval.as_millis(), 3_000);
    assert_eq!(interval.as_secs(), 3);
    assert_eq!(interval.as_u64(), 3);
}

#[test]
fn test_minutes_conversions() {
    let interval = TaskInterval::Minutes(2);
    assert_eq!(interval.as_micros(), 120_000_000);
    assert_eq!(interval.as_millis(), 120_000);
    assert_eq!(interval.as_secs(), 120);
    assert_eq!(interval.as_u64(), 2);
}

#[test]
fn test_sub_second_truncates() {
    let interval = TaskInterval::Micros(999_999);
    assert_eq!(interval.as_secs(), 0);
    assert_eq!(interval.as_millis(), 999);
}

#[test]
fn test_try_as_micros() {
    assert_eq!(TaskInterval::Millis(5).try_as_micros(), Some(5_000));
    assert_eq!(TaskInterval::Micros(7).try_as_micros(), Some(7));
    assert_eq!(TaskInterval::Seconds(2).try_as_micros(), Some(2_000_000));
    assert_eq!(TaskInterval::Minutes(1).try_as_micros(), Some(60_000_000));
    assert_eq!(TaskInterval::Minutes(u64::MAX).try_as_micros(), None);
}

#[test]
fn test_config_default() {
    let config = RunnerConfig::default();
    assert_eq!(config.task_channel_capacity, 1024);
    assert_eq!(config.broadcast_channel_capacity, 16);
    assert_eq!(config.collection_timeout_millis, 5000);
}

#[test]
fn test_config_new() {
    let config = RunnerConfig::new(8, 2, 250);
    assert_eq!(config.task_channel_capacity, 8);
    assert_eq!(config.broadcast_channel_capacity, 2);
    assert_eq!(config.collection_timeout_millis, 250);
}
