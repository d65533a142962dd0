//! Integer helpers shared by the scroll engine: clamping, saturation and
//! division that rounds toward zero.

use vstd::prelude::*;

verus! {

/// Sub-units per whole unit of length, velocity, speed and friction.
pub const UNIT: i64 = 1000;

/// Microseconds per second.
pub const MICROS_PER_SECOND: i64 = 1_000_000;

/// `x` limited to the closed range from `lo` to `hi`.
pub open spec fn clamp_int(x: int, lo: int, hi: int) -> int {
    if x < lo {
        lo
    } else if x > hi {
        hi
    } else {
        x
    }
}

/// `x` limited to what an `i64` can hold.
pub open spec fn saturate(x: int) -> int {
    clamp_int(x, i64::MIN as int, i64::MAX as int)
}

/// The distance of `x` from zero.
pub open spec fn magnitude(x: int) -> int {
    if x < 0 {
        -x
    } else {
        x
    }
}

/// The quotient of `a` by a positive `b`, rounded toward zero.
pub open spec fn div_toward_zero(a: int, b: int) -> int
    recommends
        b > 0,
{
    if a >= 0 {
        a / b
    } else {
        -((-a) / b)
    }
}

/// Narrows a wide value to `i64`, stopping at the ends of the range.
pub fn saturating_narrow(x: i128) -> (r: i64)
    ensures
        r == saturate(x as int),
{
    if x > i64::MAX as i128 {
        i64::MAX
    } else if x < i64::MIN as i128 {
        i64::MIN
    } else {
        x as i64
    }
}

/// Divides by a positive number, rounding toward zero.
pub fn divide_toward_zero(a: i128, b: i128) -> (q: i128)
    requires
        b > 0,
        a > i128::MIN,
    ensures
        q == div_toward_zero(a as int, b as int),
        magnitude(q as int) <= magnitude(a as int),
{
    let divisor: u128 = b as u128;
    if a >= 0 {
        let dividend: u128 = a as u128;
        let quotient: u128 = dividend / divisor;
        proof {
            lemma_quotient_bounded(dividend as int, divisor as int);
        }
        quotient as i128
    } else {
        let dividend: u128 = (-a) as u128;
        let quotient: u128 = dividend / divisor;
        proof {
            lemma_quotient_bounded(dividend as int, divisor as int);
        }
        -(quotient as i128)
    }
}

/// A quotient by a positive number lies between zero and the dividend.
pub proof fn lemma_quotient_bounded(a: int, b: int)
    by (nonlinear_arith)
    requires
        a >= 0,
        b > 0,
    ensures
        0 <= a / b <= a,
        a < b ==> a / b == 0,
        (a / b) * b <= a,
        a < (a / b + 1) * b,
{
}

/// The magnitude of a quotient rounded toward zero is the quotient of the
/// magnitude, and the sign of the dividend is kept.
pub proof fn lemma_div_toward_zero_sign(a: int, b: int)
    requires
        b > 0,
    ensures
        magnitude(div_toward_zero(a, b)) == magnitude(a) / b,
        a >= 0 ==> div_toward_zero(a, b) >= 0,
        a <= 0 ==> div_toward_zero(a, b) <= 0,
        magnitude(div_toward_zero(a, b)) <= magnitude(a),
{
    lemma_quotient_bounded(magnitude(a), b);
}

} // verus!
