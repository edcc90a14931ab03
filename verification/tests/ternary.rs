use ternary_criticality::Ternary;

#[test]
fn test_ternary_values() {
    assert_eq!(Ternary::Neg.value(), -1);
    assert_eq!(Ternary::Zero.value(), 0);
    assert_eq!(Ternary::Pos.value(), 1);
}

#[test]
fn test_ternary_from_value() {
    assert_eq!(Ternary::from_value(-5), Ternary::Neg);
    assert_eq!(Ternary::from_value(0), Ternary::Zero);
    assert_eq!(Ternary::from_value(3), Ternary::Pos);
}

#[test]
fn ternary_value_round_trip() {
    for t in [Ternary::Neg, Ternary::Zero, Ternary::Pos] {
        assert_eq!(Ternary::from_value(t.value()), t);
    }
}

#[test]
fn ternary_from_value_extremes() {
    assert_eq!(Ternary::from_value(i8::MIN), Ternary::Neg);
    assert_eq!(Ternary::from_value(-1), Ternary::Neg);
    assert_eq!(Ternary::from_value(1), Ternary::Pos);
    assert_eq!(Ternary::from_value(i8::MAX), Ternary::Pos);
    assert_eq!(Ternary::from_value(-1).value(), -1);
    assert_eq!(Ternary::from_value(100).value(), 1);
}
