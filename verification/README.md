# ternary_criticality

Critical slowing down detection for ternary (-1, 0, +1) systems, verified with Verus.

- `src/` is the verified library: ternary states and their values
  (`ternary.rs`), the detector's state with its perturbation and recovery
  bookkeeping and the sliding-window enumeration (`detector.rs`), and the
  verdict drawn from the early-warning signals (`assessment.rs`).
- `app/` is the floating-point layer: the `CriticalityDetector` with its
  statistics (autocorrelation, variance, kurtosis, skewness, trends), built on
  the library's `DetectorState<f64>`.
- `tests/` runs the library on concrete values.
