//! Integer arithmetic that the engine's formulas share.
use vstd::prelude::*;

verus! {

/// The quotient rounded down, for a positive divisor.
pub fn div_floor(a: i128, b: i128) -> (q: i128)
    requires
        b > 0,
    ensures
        q == a / b,
{
    if a >= 0 {
        a / b
    } else {
        let below: i128 = (-(a + 1)) / b;
        assert(a / b == -below - 1) by (nonlinear_arith)
            requires
                b > 0,
                a < 0,
                below == (-(a + 1)) / (b as int),
        ;
        -below - 1
    }
}

} // verus!
