use rust_profiler::Registry;
use rust_profiler::get_data;
use rust_profiler::record_data;
use rust_profiler::try_record_data;

const NANOS_PER_SEC: u128 = 1_000_000_000;

#[test]
fn empty_snapshot() {
    let registry = Registry::new();
    let data = get_data(&registry);
    assert_eq!(data.len(), 0);
}

#[test]
fn single_accumulation() {
    let mut registry = Registry::new();
    record_data(&mut registry, "f", 250);
    let data = get_data(&registry);
    assert_eq!(data.len(), 1);
    assert_eq!(data[0].0, "f");
    assert_eq!(data[0].1.total_execution_time, 250);
    assert_eq!(data[0].1.number_of_executions, 1);
}

#[test]
fn accumulation_sums_and_counts() {
    let mut registry = Registry::new();
    let durations: [u128; 5] = [3, 1, 4, 1, 5];
    for d in durations {
        record_data(&mut registry, "f", d);
    }
    let data = get_data(&registry);
    assert_eq!(data.len(), 1);
    assert_eq!(data[0].1.total_execution_time, 14);
    assert_eq!(data[0].1.number_of_executions, 5);
}

#[test]
fn name_isolation() {
    let mut registry = Registry::new();
    record_data(&mut registry, "a", 10);
    record_data(&mut registry, "a", 20);
    let before = get_data(&registry);
    record_data(&mut registry, "b", 5);
    record_data(&mut registry, "b", 7);
    let after = get_data(&registry);
    assert_eq!(before.len(), 1);
    assert_eq!(after.len(), 2);
    let a_after = after.iter().find(|entry| entry.0 == "a").unwrap();
    assert_eq!(a_after.1.total_execution_time, 30);
    assert_eq!(a_after.1.number_of_executions, 2);
    let b_after = after.iter().find(|entry| entry.0 == "b").unwrap();
    assert_eq!(b_after.1.total_execution_time, 12);
    assert_eq!(b_after.1.number_of_executions, 2);
}

#[test]
fn ordering_by_total_duration() {
    let mut registry = Registry::new();
    record_data(&mut registry, "mid", 50);
    record_data(&mut registry, "small", 10);
    record_data(&mut registry, "large", 90);
    let data = get_data(&registry);
    assert_eq!(data.len(), 3);
    assert_eq!(data[0].0, "small");
    assert_eq!(data[1].0, "mid");
    assert_eq!(data[2].0, "large");
    assert!(data[0].1.total_execution_time <= data[1].1.total_execution_time);
    assert!(data[1].1.total_execution_time <= data[2].1.total_execution_time);
}

#[test]
fn ties_keep_both_entries() {
    let mut registry = Registry::new();
    record_data(&mut registry, "first", 42);
    record_data(&mut registry, "second", 42);
    let data = get_data(&registry);
    assert_eq!(data.len(), 2);
    assert!(data.iter().any(|entry| entry.0 == "first"));
    assert!(data.iter().any(|entry| entry.0 == "second"));
    assert_eq!(data[0].1.total_execution_time, 42);
    assert_eq!(data[1].1.total_execution_time, 42);
}

#[test]
fn repeated_records_lose_no_update() {
    let mut registry = Registry::new();
    let n: u64 = 1000;
    let d: u128 = 7;
    for _ in 0..n {
        record_data(&mut registry, "shared", d);
    }
    let data = get_data(&registry);
    assert_eq!(data.len(), 1);
    assert_eq!(data[0].1.number_of_executions, n);
    assert_eq!(data[0].1.total_execution_time, u128::from(n) * d);
}

#[test]
fn concrete_scenario() {
    let mut registry = Registry::new();
    record_data(&mut registry, "slow_function", NANOS_PER_SEC);
    record_data(&mut registry, "slow_function", 2 * NANOS_PER_SEC);
    let data = get_data(&registry);
    assert_eq!(data.len(), 1);
    assert_eq!(data[0].0, "slow_function");
    assert!(data[0].1.total_execution_time >= 3 * NANOS_PER_SEC);
    assert_eq!(data[0].1.number_of_executions, 2);
    let slow_function_data = data[0].1;

    record_data(&mut registry, "other", NANOS_PER_SEC);
    record_data(&mut registry, "other", 3 * NANOS_PER_SEC);
    let data = get_data(&registry);
    assert_eq!(data.len(), 2);
    assert_eq!(data[0].0, "slow_function");
    assert_eq!(data[0].1, slow_function_data);
    assert_eq!(data[1].0, "other");
    assert!(data[1].1.total_execution_time >= 4 * NANOS_PER_SEC);
    assert_eq!(data[1].1.number_of_executions, 2);
}

#[test]
fn durations_convert_from_std_time() {
    let mut registry = Registry::new();
    record_data(&mut registry, "timed", std::time::Duration::from_secs(1).as_nanos());
    record_data(&mut registry, "timed", std::time::Duration::from_millis(500).as_nanos());
    let data = get_data(&registry);
    assert_eq!(data.len(), 1);
    assert_eq!(data[0].1.total_execution_time, 1_500_000_000);
    assert_eq!(data[0].1.number_of_executions, 2);
}

#[test]
fn try_record_reports_overflow() {
    let mut registry = Registry::new();
    assert!(try_record_data(&mut registry, "x", u128::MAX));
    assert!(!try_record_data(&mut registry, "x", 1));
    let data = get_data(&registry);
    assert_eq!(data.len(), 1);
    assert_eq!(data[0].1.total_execution_time, u128::MAX);
    assert_eq!(data[0].1.number_of_executions, 1);
    assert!(try_record_data(&mut registry, "x", 0));
    let data = get_data(&registry);
    assert_eq!(data[0].1.number_of_executions, 2);
}

#[test]
fn test() {
    let mut registry = Registry::new();
    record_data(&mut registry, "slow_function", NANOS_PER_SEC);
    record_data(&mut registry, "slow_function", 2 * NANOS_PER_SEC);
    let data = get_data(&registry);
    assert_eq!(data.len(), 1);
    assert_eq!(data[0].0, "slow_function");
    let slow_function_data = data[0].1;
    assert!(slow_function_data.total_execution_time >= 3 * NANOS_PER_SEC);
    assert_eq!(slow_function_data.number_of_executions, 2);
    record_data(&mut registry, "slow_struct_slow_method", NANOS_PER_SEC);
    record_data(&mut registry, "slow_struct_slow_method", 3 * NANOS_PER_SEC);
    let data = get_data(&registry);
    assert_eq!(data.len(), 2);
    assert_eq!(data[0].0, "slow_function");
    assert_eq!(data[0].1, slow_function_data);
    assert_eq!(data[1].0, "slow_struct_slow_method");
    let slow_struct_slow_method_data = data[1].1;
    assert!(slow_struct_slow_method_data.total_execution_time >= 4 * NANOS_PER_SEC);
    assert_eq!(slow_struct_slow_method_data.number_of_executions, 2);
}
