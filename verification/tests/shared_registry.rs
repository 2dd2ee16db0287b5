use rust_profiler::SharedRegistry;

#[test]
fn shared_record_and_snapshot() {
    let registry = SharedRegistry::new();
    assert!(registry.record("f", 100));
    assert!(registry.record("f", 200));
    assert!(registry.record("g", 50));
    let data = registry.snapshot();
    assert_eq!(data.len(), 2);
    assert_eq!(data[0].0, "g");
    assert_eq!(data[0].1.total_execution_time, 50);
    assert_eq!(data[0].1.number_of_executions, 1);
    assert_eq!(data[1].0, "f");
    assert_eq!(data[1].1.total_execution_time, 300);
    assert_eq!(data[1].1.number_of_executions, 2);
}

#[test]
fn shared_record_reports_overflow() {
    let registry = SharedRegistry::new();
    assert!(registry.record("x", u128::MAX));
    assert!(!registry.record("x", 1));
    let data = registry.snapshot();
    assert_eq!(data.len(), 1);
    assert_eq!(data[0].1.total_execution_time, u128::MAX);
    assert_eq!(data[0].1.number_of_executions, 1);
}

#[test]
fn shared_snapshot_empty() {
    let registry = SharedRegistry::new();
    assert_eq!(registry.snapshot().len(), 0);
}
