use brightness_scheduler::actuator::{
    aggregate, next_write, walk_start, write_failed, write_succeeded, DeviceFailure, DeviceReport,
};

/// Drives one device's walk to completion with every write accepted,
/// returning the levels written in order.
fn run_walk(current: u32, target: u32) -> Vec<u32> {
    let mut walk = walk_start(current, target);
    let mut writes: Vec<u32> = Vec::new();
    while let Some(level) = next_write(&walk) {
        writes.push(level);
        write_succeeded(&mut walk);
    }
    writes
}

#[test]
fn at_target_no_writes() {
    let walk = walk_start(50, 50);
    assert_eq!(next_write(&walk), None);
    assert!(run_walk(50, 50).is_empty());
}

#[test]
fn upward_walk_writes_each_unit_level() {
    assert_eq!(run_walk(40, 45), vec![41, 42, 43, 44, 45]);
}

#[test]
fn downward_walk_writes_each_unit_level() {
    assert_eq!(run_walk(45, 40), vec![44, 43, 42, 41, 40]);
}

#[test]
fn write_failure_aborts_walk_at_last_good_level() {
    let mut walk = walk_start(40, 45);
    assert_eq!(next_write(&walk), Some(41));
    write_succeeded(&mut walk);
    assert_eq!(next_write(&walk), Some(42));
    write_succeeded(&mut walk);
    // The third write is rejected: the walk must freeze at 42 and issue
    // no further steps.
    assert_eq!(next_write(&walk), Some(43));
    write_failed(&mut walk);
    assert_eq!(walk.level, 42);
    assert_eq!(next_write(&walk), None);
}

#[test]
fn aggregate_of_no_failures_is_ok() {
    let empty: Vec<Option<DeviceFailure>> = Vec::new();
    assert!(aggregate(&empty).is_ok());
    assert!(aggregate(&vec![None, None, None]).is_ok());
}

#[test]
fn read_failure_does_not_stop_other_devices() {
    // Device 0's read fails, so it never walks; device 1 still walks all
    // the way to the target in the same pass.
    let mut outcomes: Vec<Option<DeviceFailure>> = Vec::new();
    outcomes.push(Some(DeviceFailure::Read));
    let writes = run_walk(40, 45);
    assert_eq!(writes, vec![41, 42, 43, 44, 45]);
    outcomes.push(None);
    let err = aggregate(&outcomes).unwrap_err();
    assert_eq!(
        err.failures,
        vec![DeviceReport { index: 0, failure: DeviceFailure::Read }]
    );
}

#[test]
fn write_failure_is_reported_for_its_device() {
    let outcomes = vec![None, Some(DeviceFailure::Write)];
    let err = aggregate(&outcomes).unwrap_err();
    assert_eq!(
        err.failures,
        vec![DeviceReport { index: 1, failure: DeviceFailure::Write }]
    );
}

#[test]
fn aggregate_lists_every_failed_device_in_order() {
    let outcomes = vec![
        Some(DeviceFailure::Read),
        None,
        Some(DeviceFailure::Write),
        None,
    ];
    let err = aggregate(&outcomes).unwrap_err();
    assert_eq!(
        err.failures,
        vec![
            DeviceReport { index: 0, failure: DeviceFailure::Read },
            DeviceReport { index: 2, failure: DeviceFailure::Write },
        ]
    );
}
