use vaultsyn::relay::{fan_out, SendOutcome, SinkRegistry};

#[test]
fn broadcast_reaches_every_registered_sink() {
    let mut registry = SinkRegistry::new();
    registry.register(1);
    registry.register(2);
    registry.register(3);
    assert_eq!(registry.len(), 3);

    let snapshot = registry.snapshot_and_clear();
    assert_eq!(registry.len(), 0);
    assert_eq!(snapshot, vec![1, 2, 3]);

    let outcomes = vec![true, true, true];
    let report = fan_out(&snapshot, &outcomes);
    assert_eq!(
        report,
        vec![
            SendOutcome { sink: 1, delivered: true },
            SendOutcome { sink: 2, delivered: true },
            SendOutcome { sink: 3, delivered: true },
        ]
    );
    // Each sink appears exactly once, the sender's own included.
    for sink in 1..=3u64 {
        assert_eq!(report.iter().filter(|o| o.sink == sink).count(), 1);
    }

    registry.merge_back(snapshot);
    assert_eq!(registry.len(), 3);
}

#[test]
fn one_failing_sink_does_not_stop_the_rest() {
    let snapshot = vec![10u64, 11, 12];
    let outcomes = vec![true, false, true];
    let report = fan_out(&snapshot, &outcomes);
    assert_eq!(report.len(), 3);
    assert_eq!(report[1], SendOutcome { sink: 11, delivered: false });
    // The other two were still attempted (and went through).
    assert_eq!(report[0], SendOutcome { sink: 10, delivered: true });
    assert_eq!(report[2], SendOutcome { sink: 12, delivered: true });
}

#[test]
fn sink_registered_after_snapshot_misses_the_frame() {
    let mut registry = SinkRegistry::new();
    registry.register(1);
    registry.register(2);
    let snapshot = registry.snapshot_and_clear();
    // A connection arriving during the broadcast registers while the lock
    // is free; it is invisible to the snapshot already taken.
    registry.register(3);
    let outcomes = vec![true, true];
    let report = fan_out(&snapshot, &outcomes);
    assert!(report.iter().all(|o| o.sink != 3));
    registry.merge_back(snapshot);
    assert_eq!(registry.len(), 3);
}
