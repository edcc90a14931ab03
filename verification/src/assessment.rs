//! Combining the early-warning signals into a verdict.
use vstd::prelude::*;

verus! {

/// How many of the early-warning signals fired, and the verdict drawn.
#[derive(Debug, Clone, Copy, PartialEq, Eq, Structural)]
pub struct SignalAssessment {
    /// Number of signals that fired, out of three.
    pub signal_count: u8,
    /// Whether critical slowing down is detected.
    pub is_critical: bool,
}

/// 1 for a signal that fired, 0 for one that did not.
pub open spec fn signal_weight(fired: bool) -> nat {
    if fired {
        1
    } else {
        0
    }
}

/// The number of signals among the three that fired.
pub open spec fn fired_count(autocorr: bool, variance: bool, recovery: bool) -> nat {
    signal_weight(autocorr) + signal_weight(variance) + signal_weight(recovery)
}

/// The fewest signals that make the system critical.
pub const CRITICAL_SIGNALS: u8 = 2;

/// Count the early-warning signals that fired: rising autocorrelation,
/// variance above its threshold, slow recovery. The system is critical when
/// at least two of them fired.
pub fn assess_signals(autocorr_signal: bool, variance_signal: bool, recovery_signal: bool) -> (r:
    SignalAssessment)
    ensures
        r.signal_count == fired_count(autocorr_signal, variance_signal, recovery_signal),
        r.is_critical <==> r.signal_count >= CRITICAL_SIGNALS,
        r.is_critical <==> r.signal_count >= 2,
        r.signal_count <= 3,
{
    let mut count: u8 = 0;
    if autocorr_signal {
        count = count + 1;
    }
    if variance_signal {
        count = count + 1;
    }
    if recovery_signal {
        count = count + 1;
    }
    SignalAssessment { signal_count: count, is_critical: count >= CRITICAL_SIGNALS }
}

/// More signals firing can only raise the count, and a critical system stays
/// critical when a further signal fires.
pub proof fn lemma_assessment_monotone(a1: bool, v1: bool, r1: bool, a2: bool, v2: bool, r2: bool)
    requires
        a1 ==> a2,
        v1 ==> v2,
        r1 ==> r2,
    ensures
        fired_count(a1, v1, r1) <= fired_count(a2, v2, r2),
        fired_count(a1, v1, r1) >= CRITICAL_SIGNALS ==> fired_count(a2, v2, r2) >= CRITICAL_SIGNALS,
{
}

} // verus!
