//! Ternary states and their integer values.
use vstd::prelude::*;

verus! {

/// A ternary state: -1, 0, or +1.
#[derive(Debug, Clone, Copy, PartialEq, Eq, Structural)]
pub enum Ternary {
    Neg,
    Zero,
    Pos,
}

/// The integer that a ternary state stands for.
pub open spec fn ternary_value(t: Ternary) -> int {
    match t {
        Ternary::Neg => -1,
        Ternary::Zero => 0,
        Ternary::Pos => 1,
    }
}

/// The state whose value has the sign of `v`.
pub open spec fn ternary_of_sign(v: int) -> Ternary {
    if v < 0 {
        Ternary::Neg
    } else if v > 0 {
        Ternary::Pos
    } else {
        Ternary::Zero
    }
}

impl Ternary {
    /// The value of the state: -1, 0 or +1.
    pub fn value(&self) -> (r: i8)
        ensures
            r == ternary_value(*self),
            -1 <= r <= 1,
    {
        match self {
            Ternary::Neg => -1,
            Ternary::Zero => 0,
            Ternary::Pos => 1,
        }
    }

    /// The state that classifies `v` by its sign.
    pub fn from_value(v: i8) -> (r: Self)
        ensures
            r == ternary_of_sign(v as int),
    {
        if v < 0 {
            Ternary::Neg
        } else if v > 0 {
            Ternary::Pos
        } else {
            Ternary::Zero
        }
    }
}

/// Reading a state's value and classifying it again gives back the state.
pub proof fn lemma_from_value_of_value(t: Ternary)
    ensures
        ternary_of_sign(ternary_value(t)) == t,
{
}

/// Classifying an integer and reading the value gives its sign.
pub proof fn lemma_value_of_from_value(v: int)
    ensures
        ternary_value(ternary_of_sign(v)) == (if v < 0 { -1int } else if v > 0 { 1int } else { 0int }),
        ternary_of_sign(v) == Ternary::Zero <==> v == 0,
{
}

} // verus!
