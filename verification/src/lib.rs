//! Critical slowing down detection for ternary systems: the verified core.
//!
//! The library keeps the state of a detector (the observed series, the
//! perturbations applied and the recovery from each), enumerates the sliding
//! windows that rolling statistics are taken over, and turns the
//! early-warning signals into a verdict. Ternary states map to and from
//! their integer values.
pub mod assessment;
pub mod detector;
pub mod ternary;

pub use assessment::{assess_signals, SignalAssessment, CRITICAL_SIGNALS};
pub use detector::{DetectorState, Perturbation, RecoveryEvent, EARLY_WINDOW};
pub use ternary::Ternary;
