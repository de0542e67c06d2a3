use vstd::prelude::*;

verus! {

/// How a first value stands to a second one.
#[derive(Clone, Copy, Debug, PartialEq, Eq, Structural)]
pub enum Sign {
    /// The first comes first.
    Before,
    /// Neither comes first.
    Same,
    /// The second comes first.
    After,
}

/// How the integer `a` stands to the integer `b`.
pub open spec fn integer_sign(a: int, b: int) -> Sign {
    if a < b {
        Sign::Before
    } else if a == b {
        Sign::Same
    } else {
        Sign::After
    }
}

/// Orders two integers.
pub fn compare_integers(a: i128, b: i128) -> (sign: Sign)
    ensures
        sign == integer_sign(a as int, b as int),
{
    if a < b {
        Sign::Before
    } else if a == b {
        Sign::Same
    } else {
        Sign::After
    }
}

} // verus!
