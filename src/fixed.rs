use vstd::prelude::*;

verus! {

/// Millionths in one whole unit.
pub const UNITS_PER_ONE: i64 = 1_000_000;

/// The largest magnitude a `Fixed` holds, in millionths (one billion units).
pub const MAX_UNITS: i64 = 1_000_000_000_000_000;

/// Integer division of `a` by a positive `b`, rounded to the nearest integer
/// with halves rounded away from zero.
pub open spec fn round_div(a: int, b: int) -> int
    recommends
        b > 0,
{
    if a >= 0 {
        (2 * a + b) / (2 * b)
    } else {
        -((-2 * a + b) / (2 * b))
    }
}

/// A number held exactly as a whole count of millionths, with magnitude at
/// most `MAX_UNITS`.
#[derive(Clone, Copy, Debug, PartialEq, Eq)]
pub struct Fixed {
    units: i64,
}

impl View for Fixed {
    type V = int;

    closed spec fn view(&self) -> int {
        self.units as int
    }
}

impl Fixed {
    #[verifier::type_invariant]
    spec fn in_range(self) -> bool {
        -MAX_UNITS <= self.units <= MAX_UNITS
    }

    /// The number `units` millionths, if its magnitude is within range.
    pub fn from_units(units: i64) -> (r: Option<Fixed>)
        ensures
            r is Some <==> -MAX_UNITS <= units <= MAX_UNITS,
            r matches Some(f) ==> f@ == units,
    {
        if -MAX_UNITS <= units && units <= MAX_UNITS {
            Some(Fixed { units })
        } else {
            None
        }
    }

    /// The number of millionths.
    pub fn units(&self) -> (r: i64)
        ensures
            r == self@,
            -MAX_UNITS <= r <= MAX_UNITS,
    {
        proof {
            use_type_invariant(self);
        }
        self.units
    }
}

/// An exact fraction with a positive denominator.
#[derive(Clone, Copy, Debug, PartialEq, Eq)]
pub struct Ratio {
    pub num: i128,
    pub den: i128,
}

/// Bound on the operands of `round_div_exec`.
pub const ROUND_LIMIT: i128 = 0x1000_0000_0000_0000_0000_0000_0000_0000;

/// `round_div` on machine integers.
pub fn round_div_exec(a: i128, b: i128) -> (r: i128)
    requires
        0 < b <= ROUND_LIMIT,
        -ROUND_LIMIT <= a <= ROUND_LIMIT,
    ensures
        r == round_div(a as int, b as int),
{
    if a >= 0 {
        (2 * a + b) / (2 * b)
    } else {
        let m: i128 = -a;
        -((2 * m + b) / (2 * b))
    }
}

} // verus!
