use fractal_raster::progress::ProgressReport;

#[test]
fn report_is_due_at_every_hundredth() {
    let due: Vec<u64> = (0..=1000u64).filter(|&n| ProgressReport::due(n, 1000).is_some()).collect();
    let expected: Vec<u64> = (0..=100u64).map(|k| k * 10).collect();
    assert_eq!(due, expected);
}

#[test]
fn cadence_rounds_down() {
    assert!(ProgressReport::due(2, 250).is_some());
    assert!(ProgressReport::due(3, 250).is_none());
    assert!(ProgressReport::due(250, 250).is_some());
    assert!(ProgressReport::due(199, 199).is_some());
    assert!(ProgressReport::due(1, 199).is_some());
}

#[test]
fn small_totals_report_only_at_zero() {
    assert!(ProgressReport::due(0, 4).is_some());
    for received in 1..=4u64 {
        assert!(ProgressReport::due(received, 4).is_none());
    }
    assert!(ProgressReport::due(99, 99).is_none());
}

#[test]
fn report_needs_a_count_within_a_positive_total() {
    assert!(ProgressReport::due(0, 0).is_none());
    assert!(ProgressReport::due(20, 10).is_none());
    assert!(ProgressReport::due(1100, 1000).is_none());
}

#[test]
fn report_carries_count_total_and_percent() {
    let report = ProgressReport::due(250, 1000).expect("250 is a multiple of 10");
    assert_eq!(report.received(), 250);
    assert_eq!(report.total(), 1000);
    assert_eq!(report.percent(), 25);
}

#[test]
fn percent_rounds_down() {
    assert_eq!(ProgressReport::due(2, 250).expect("due").percent(), 0);
    assert_eq!(ProgressReport::due(4, 250).expect("due").percent(), 1);
    assert_eq!(ProgressReport::due(248, 250).expect("due").percent(), 99);
    assert_eq!(ProgressReport::due(250, 250).expect("due").percent(), 100);
    assert_eq!(ProgressReport::due(0, 250).expect("due").percent(), 0);
}

#[test]
fn percent_of_the_largest_total_does_not_overflow() {
    let step = u64::MAX / 100;
    let report = ProgressReport::due(100 * step, u64::MAX).expect("a multiple of the cadence");
    assert_eq!(report.percent(), 99);
    let report = ProgressReport::due(50 * step, u64::MAX).expect("a multiple of the cadence");
    assert_eq!(report.percent(), 49);
    assert!(ProgressReport::due(u64::MAX, u64::MAX).is_none());
}
