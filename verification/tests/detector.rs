use ternary_criticality::{DetectorState, Perturbation, Ternary, EARLY_WINDOW};

fn within(tolerance: f64) -> impl Fn(f64, f64) -> bool {
    move |current: f64, baseline: f64| (current - baseline).abs() <= tolerance * baseline.abs().max(1.0)
}

fn add(baseline: f64, magnitude: f64) -> f64 {
    baseline + magnitude
}

#[test]
fn test_ternary_observation() {
    let mut det: DetectorState<f64> = DetectorState::new(0.0);
    det.observe(Ternary::Pos.value() as f64);
    det.observe(Ternary::Neg.value() as f64);
    det.observe(Ternary::Zero.value() as f64);
    assert_eq!(det.history().len(), 3);
    assert_eq!(det.history(), &[1.0, -1.0, 0.0]);
}

#[test]
fn test_reset() {
    let mut det: DetectorState<f64> = DetectorState::new(0.0);
    for i in 0..10 {
        det.observe(i as f64);
    }
    det.record_perturbation(3, 1.0, 3, add);
    det.reset();
    assert!(det.history().is_empty());
    assert!(det.recoveries().is_empty());
}

#[test]
fn test_recovery_tracking() {
    let mut det: DetectorState<f64> = DetectorState::new(0.0);
    det.observe(1.0);
    det.record_perturbation(0, 2.0, 0, add);
    det.observe(1.1);
    assert!(det.check_recovery(0, 1, within(0.5)));
}

#[test]
fn test_no_recovery() {
    let mut det: DetectorState<f64> = DetectorState::new(0.0);
    det.observe(1.0);
    det.record_perturbation(0, 5.0, 0, add);
    det.observe(5.0);
    assert!(!det.check_recovery(0, 1, within(0.1)));
    assert_eq!(det.recoveries()[0].recovery_time, None);
}

#[test]
fn test_mean_recovery_time_infinite_when_none() {
    let det: DetectorState<f64> = DetectorState::new(0.0);
    assert_eq!(det.recovery_totals(), Some((0, 0)));
}

#[test]
fn observe_appends_in_order() {
    let mut det: DetectorState<f64> = DetectorState::new(0.0);
    det.observe(0.5);
    det.observe(-2.0);
    det.observe(3.25);
    assert_eq!(det.history(), &[0.5, -2.0, 3.25]);
}

#[test]
fn perturbation_baseline_comes_from_indexed_observation() {
    let mut det: DetectorState<f64> = DetectorState::new(0.0);
    det.observe(1.0);
    det.observe(4.0);
    det.record_perturbation(1, 0.5, 7, add);
    let ev = det.recoveries()[0];
    assert_eq!(ev.perturbation_time, 7);
    assert_eq!(ev.recovery_time, None);
    assert_eq!(ev.baseline_value, 4.0);
    assert_eq!(ev.perturbed_value, 4.5);
}

#[test]
fn perturbation_beyond_history_uses_first_observation() {
    let mut det: DetectorState<f64> = DetectorState::new(0.0);
    det.observe(2.0);
    det.observe(9.0);
    det.record_perturbation(50, 1.0, 50, add);
    let ev = det.recoveries()[0];
    assert_eq!(ev.baseline_value, 2.0);
    assert_eq!(ev.perturbed_value, 3.0);
}

#[test]
fn perturbation_without_history_uses_rest_baseline() {
    let mut det: DetectorState<f64> = DetectorState::new(0.0);
    det.record_perturbation(0, 1.5, 0, add);
    let ev = det.recoveries()[0];
    assert_eq!(ev.baseline_value, 0.0);
    assert_eq!(ev.perturbed_value, 1.5);
    // After a reset the baseline falls back to the resting value again.
    det.observe(7.0);
    det.reset();
    det.record_perturbation(0, 1.0, 0, add);
    assert_eq!(det.recoveries()[0].baseline_value, 0.0);
}

#[test]
fn unknown_perturbation_has_not_recovered() {
    let mut det: DetectorState<f64> = DetectorState::new(0.0);
    det.observe(1.0);
    assert!(!det.check_recovery(0, 5, within(10.0)));
    det.record_perturbation(0, 1.0, 0, add);
    assert!(!det.check_recovery(1, 5, within(10.0)));
}

#[test]
fn recovery_needs_an_observation() {
    let mut det: DetectorState<f64> = DetectorState::new(0.0);
    det.record_perturbation(0, 1.0, 0, add);
    assert!(!det.check_recovery(0, 3, |_, _| true));
    assert_eq!(det.recoveries()[0].recovery_time, None);
}

#[test]
fn recovery_once_recorded_is_kept() {
    let mut det: DetectorState<f64> = DetectorState::new(0.0);
    det.observe(1.0);
    det.record_perturbation(0, 3.0, 2, add);
    det.observe(1.05);
    assert!(det.check_recovery(0, 6, within(0.1)));
    assert_eq!(det.recoveries()[0].recovery_time, Some(6));
    det.observe(100.0);
    // A later check neither undoes nor moves the recovery.
    assert!(det.check_recovery(0, 9, within(0.1)));
    assert!(det.check_recovery(0, 11, |_, _| false));
    assert_eq!(det.recoveries()[0].recovery_time, Some(6));
}

#[test]
fn recovery_totals_sum_durations() {
    let mut det: DetectorState<f64> = DetectorState::new(0.0);
    det.observe(1.0);
    det.record_perturbation(0, 1.0, 2, add);
    det.record_perturbation(0, 1.0, 5, add);
    det.record_perturbation(0, 1.0, 10, add);
    assert!(det.check_recovery(0, 7, |_, _| true));
    assert!(det.check_recovery(2, 13, |_, _| true));
    // (7 - 2) + (13 - 10), over two recovered events.
    assert_eq!(det.recovery_totals(), Some((8, 2)));
}

#[test]
fn recovery_before_perturbation_counts_as_zero() {
    let mut det: DetectorState<f64> = DetectorState::new(0.0);
    det.observe(1.0);
    det.record_perturbation(0, 1.0, 20, add);
    assert!(det.check_recovery(0, 4, |_, _| true));
    assert_eq!(det.recovery_totals(), Some((0, 1)));
}

#[test]
fn recovery_totals_report_overflow() {
    let mut det: DetectorState<f64> = DetectorState::new(0.0);
    det.observe(1.0);
    det.record_perturbation(0, 1.0, 0, add);
    det.record_perturbation(0, 1.0, 0, add);
    assert!(det.check_recovery(0, usize::MAX, |_, _| true));
    assert_eq!(det.recovery_totals(), Some((usize::MAX, 1)));
    assert!(det.check_recovery(1, 1, |_, _| true));
    assert_eq!(det.recovery_totals(), None);
}

#[test]
fn rolling_enumerates_every_window() {
    let mut det: DetectorState<f64> = DetectorState::new(0.0);
    for i in 0..6 {
        det.observe(i as f64);
    }
    let windows = det.rolling(4, |s, e| (s, e), || (usize::MAX, usize::MAX));
    assert_eq!(windows, vec![(0, 4), (1, 5), (2, 6)]);
    let sums = det.rolling(2, |s, e| det.history()[s..e].iter().sum::<f64>(), || -1.0);
    assert_eq!(sums, vec![1.0, 3.0, 5.0, 7.0, 9.0]);
}

#[test]
fn rolling_falls_back_to_whole_series() {
    let mut det: DetectorState<f64> = DetectorState::new(0.0);
    det.observe(1.0);
    det.observe(2.0);
    let r = det.rolling(3, |s, e| (s, e), || (7, 7));
    assert_eq!(r, vec![(7, 7)]);
    let exact = det.rolling(2, |s, e| (s, e), || (7, 7));
    assert_eq!(exact, vec![(0, 2)]);
    let empty_windows = det.rolling(0, |s, e| (s, e), || (7, 7));
    assert_eq!(empty_windows, vec![(0, 0), (1, 1), (2, 2)]);
}

#[test]
fn early_history_needs_more_than_the_window() {
    let mut det: DetectorState<f64> = DetectorState::new(0.0);
    for i in 0..EARLY_WINDOW {
        det.observe(i as f64);
    }
    assert!(det.early_history().is_none());
    det.observe(42.0);
    let early = det.early_history().unwrap();
    assert_eq!(early.len(), EARLY_WINDOW);
    assert_eq!(early[0], 0.0);
    assert_eq!(early[EARLY_WINDOW - 1], (EARLY_WINDOW - 1) as f64);
}

#[test]
fn perturbation_record_keeps_its_fields() {
    let p = Perturbation { index: 3, magnitude: 0.5, time_step: 9 };
    assert_eq!(p.index, 3);
    assert_eq!(p.time_step, 9);
}
