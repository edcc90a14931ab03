use ternary_criticality::{assess_signals, SignalAssessment};

#[test]
fn no_signal_is_not_critical() {
    assert_eq!(
        assess_signals(false, false, false),
        SignalAssessment { signal_count: 0, is_critical: false }
    );
}

#[test]
fn one_signal_is_not_critical() {
    assert_eq!(assess_signals(true, false, false), SignalAssessment { signal_count: 1, is_critical: false });
    assert_eq!(assess_signals(false, true, false), SignalAssessment { signal_count: 1, is_critical: false });
    assert_eq!(assess_signals(false, false, true), SignalAssessment { signal_count: 1, is_critical: false });
}

#[test]
fn two_signals_are_critical() {
    assert_eq!(assess_signals(true, true, false), SignalAssessment { signal_count: 2, is_critical: true });
    assert_eq!(assess_signals(false, true, true), SignalAssessment { signal_count: 2, is_critical: true });
    assert_eq!(assess_signals(true, false, true), SignalAssessment { signal_count: 2, is_critical: true });
}

#[test]
fn all_signals_are_critical() {
    let a = assess_signals(true, true, true);
    assert_eq!(a, SignalAssessment { signal_count: 3, is_critical: true });
    let confidence = a.signal_count as f64 / 3.0;
    assert!((0.0..=1.0).contains(&confidence));
}
