//! Inertial motion after a drag is released: velocity decays exponentially
//! under friction, and the position follows in closed form.
//!
//! The decay over one tick is a fraction of [`DECAY_ONE`]. It is computed in
//! integers: a short power series for small exponents, and repeated squaring
//! of the half-exponent's decay for larger ones.
//!
//! The way travelled in a tick is counted in whole thousandths. A part of a
//! thousandth counts as a whole one: a tick that moves at all moves the
//! offset. The way is cut off at `velocity / friction`, the whole way that
//! is left before the fling rests.

use vstd::prelude::*;
use crate::fixed::{
    div_toward_zero, divide_toward_zero, lemma_div_toward_zero_sign, lemma_quotient_bounded,
    magnitude, saturate, saturating_narrow, UNIT,
};

verus! {

/// The decay fraction that stands for one: no decay at all.
pub const DECAY_ONE: u64 = 1073741824;

/// Exponents below this bound, a sixteenth of [`DECAY_ONE`], are handled by
/// the power series directly.
pub const SERIES_LIMIT: u64 = 67108864;

/// Thousandths times microseconds per whole unit of the exponent.
pub const EXPONENT_SCALE: u64 = 1000000000;

/// The product of a friction coefficient in thousandths per second and a
/// time in microseconds, as a multiple of `1 / DECAY_ONE`.
pub open spec fn decay_exponent(coefficient: int, dt_micros: int) -> int {
    coefficient * dt_micros * (DECAY_ONE as int) / (EXPONENT_SCALE as int)
}

/// The power series of `exp(-r / DECAY_ONE)` up to the fourth order, as a
/// fraction of [`DECAY_ONE`], for `r` below [`SERIES_LIMIT`].
pub open spec fn decay_series(r: int) -> int {
    let one = DECAY_ONE as int;
    one - r + r * r / (2 * one) - r * r * r / (6 * one * one) + r * r * r * r / (24 * one * one
        * one)
}

/// The decay `exp(-y / DECAY_ONE)` as a fraction of [`DECAY_ONE`]: the power
/// series where `y` is small, else the square of the decay over half of `y`.
pub open spec fn decay_of_exponent(y: int) -> int
    decreases y,
{
    if y < SERIES_LIMIT as int {
        decay_series(y)
    } else {
        let half = decay_of_exponent(y / 2);
        half * half / (DECAY_ONE as int)
    }
}

/// The fraction of a velocity that is left after `dt_micros` microseconds
/// under the friction `coefficient`, as a fraction of [`DECAY_ONE`].
pub open spec fn decay_factor_of(coefficient: int, dt_micros: int) -> int {
    decay_of_exponent(decay_exponent(coefficient, dt_micros))
}

/// A velocity after the decay `decay` was applied to it.
pub open spec fn decayed_velocity(velocity: int, decay: int) -> int {
    div_toward_zero(velocity * decay, DECAY_ONE as int)
}

/// How far a fling of the given speed gets before friction brings it to
/// rest, `speed / coefficient`, in whole thousandths.
pub open spec fn fling_reach(speed: int, coefficient: int) -> int {
    speed * (UNIT as int) / coefficient
}

/// The distance travelled while `speed` decays by `decay` under the friction
/// `coefficient`: `speed / coefficient * (1 - decay)`, in whole thousandths.
/// A part of a thousandth counts as a whole one, so that a fling that moves
/// at all moves the offset; but the distance never exceeds
/// [`fling_reach`], where the fling would rest.
pub open spec fn fling_distance(speed: int, coefficient: int, decay: int) -> int {
    let exact = speed * ((DECAY_ONE as int) - decay) * (UNIT as int);
    let divisor = coefficient * (DECAY_ONE as int);
    let rounded_up = (exact + divisor - 1) / divisor;
    let reach = fling_reach(speed, coefficient);
    if rounded_up <= reach {
        rounded_up
    } else {
        reach
    }
}

/// The way travelled while `velocity` decays by `decay` under the friction
/// `coefficient`: the distance of [`fling_distance`], in the direction of
/// the velocity.
pub open spec fn fling_displacement(velocity: int, coefficient: int, decay: int) -> int {
    if velocity >= 0 {
        fling_distance(velocity, coefficient, decay)
    } else {
        -fling_distance(-velocity, coefficient, decay)
    }
}

/// The distance of a fling tick is less than a thousandth away from the
/// closed form, and never beyond the place where the fling would rest. It
/// is zero without speed or without decay. With both it is at least one
/// thousandth, if only the fling has a thousandth to go before it rests.
pub proof fn lemma_fling_distance_bounds(speed: int, coefficient: int, decay: int)
    requires
        speed >= 0,
        coefficient > 0,
        0 <= decay <= DECAY_ONE as int,
    ensures
        0 <= fling_distance(speed, coefficient, decay),
        fling_distance(speed, coefficient, decay) * coefficient <= speed * (UNIT as int),
        fling_distance(speed, coefficient, decay) * (coefficient * (DECAY_ONE as int)) < speed * ((
        DECAY_ONE as int) - decay) * (UNIT as int) + coefficient * (DECAY_ONE as int),
        fling_distance(speed, coefficient, decay) * (coefficient * (DECAY_ONE as int)) > speed * ((
        DECAY_ONE as int) - decay) * (UNIT as int) - coefficient * (DECAY_ONE as int),
        speed == 0 || decay == DECAY_ONE as int ==> fling_distance(speed, coefficient, decay) == 0,
        speed > 0 && decay < DECAY_ONE as int && coefficient <= speed * (UNIT as int)
            ==> fling_distance(speed, coefficient, decay) >= 1,
{
    let one = DECAY_ONE as int;
    let lost = one - decay;
    let exact = speed * lost * (UNIT as int);
    let divisor = coefficient * one;
    let total = speed * (UNIT as int);
    let rounded_up = (exact + divisor - 1) / divisor;
    let reach = total / coefficient;
    assert(divisor > 0 && divisor == coefficient * 1073741824) by (nonlinear_arith)
        requires
            coefficient > 0,
            divisor == coefficient * one,
            one == 1073741824,
    ;
    assert(0 <= exact && exact == total * lost && exact <= total * one && (speed > 0 && lost > 0
        ==> exact > 0) && (speed == 0 || lost == 0 ==> exact == 0)) by (nonlinear_arith)
        requires
            speed >= 0,
            0 <= lost <= one,
            exact == speed * lost * 1000,
            total == speed * 1000,
    ;
    lemma_quotient_bounded(exact + divisor - 1, divisor);
    lemma_quotient_bounded(total, coefficient);
    assert(rounded_up * divisor <= exact + divisor - 1);
    assert(exact + divisor - 1 < (rounded_up + 1) * divisor);
    assert(rounded_up * divisor >= exact) by (nonlinear_arith)
        requires
            exact + divisor - 1 < (rounded_up + 1) * divisor,
    ;
    assert(exact > 0 ==> rounded_up >= 1) by (nonlinear_arith)
        requires
            exact + divisor - 1 < (rounded_up + 1) * divisor,
            divisor > 0,
    ;
    assert(exact == 0 ==> rounded_up == 0);
    assert(reach * divisor + divisor > exact) by (nonlinear_arith)
        requires
            total < (reach + 1) * coefficient,
            divisor == coefficient * one,
            exact <= total * one,
            one > 0,
    ;
    assert(reach * divisor == (reach * coefficient) * one && (rounded_up * coefficient) * one
        == rounded_up * divisor) by (nonlinear_arith)
        requires
            divisor == coefficient * one,
    ;
    assert(coefficient <= total ==> reach >= 1) by (nonlinear_arith)
        requires
            total < (reach + 1) * coefficient,
            coefficient > 0,
            reach >= 0,
    ;
    assert(rounded_up <= reach ==> rounded_up * coefficient <= total) by (nonlinear_arith)
        requires
            reach * coefficient <= total,
            coefficient > 0,
            0 <= rounded_up,
    ;
    assert(reach < rounded_up ==> reach * divisor < exact + divisor) by (nonlinear_arith)
        requires
            rounded_up * divisor <= exact + divisor - 1,
            divisor > 0,
            reach >= 0,
    ;
}

/// A fling travels the way its velocity points, by the distance of
/// [`fling_distance`].
pub proof fn lemma_fling_displacement_direction(velocity: int, coefficient: int, decay: int)
    requires
        coefficient > 0,
        0 <= decay <= DECAY_ONE as int,
    ensures
        velocity >= 0 ==> fling_displacement(velocity, coefficient, decay) >= 0,
        velocity <= 0 ==> fling_displacement(velocity, coefficient, decay) <= 0,
        velocity == 0 || decay == DECAY_ONE as int ==> fling_displacement(
            velocity,
            coefficient,
            decay,
        ) == 0,
        magnitude(fling_displacement(velocity, coefficient, decay)) == fling_distance(
            magnitude(velocity),
            coefficient,
            decay,
        ),
        magnitude(fling_displacement(velocity, coefficient, decay)) * coefficient <= magnitude(
            velocity,
        ) * (UNIT as int),
        velocity != 0 && decay < DECAY_ONE as int && coefficient <= magnitude(velocity) * (
        UNIT as int) ==> fling_displacement(velocity, coefficient, decay) != 0,
{
    lemma_fling_distance_bounds(magnitude(velocity), coefficient, decay);
}

/// The series stays within the unit fraction, and below it for a positive
/// exponent.
pub proof fn lemma_decay_series_bounds(r: int)
    requires
        0 <= r < SERIES_LIMIT as int,
    ensures
        0 < decay_series(r) <= DECAY_ONE as int,
        r == 0 ==> decay_series(r) == DECAY_ONE as int,
        r > 0 ==> decay_series(r) < DECAY_ONE as int,
        0 <= r * r <= r * 67108864,
        0 <= r * r * r <= r * 4503599627370496,
        0 <= r * r * r * r <= r * 302231454903657293676544,
        r * r * r / 6917529027641081856 <= r * r / 2147483648,
        decay_series(r) >= DECAY_ONE as int - r,
        decay_series(r) == 1073741824 - r + r * r / 2147483648 - r * r * r / 6917529027641081856
            + r * r * r * r / 29710560942849126597578981376,
{
    let square = r * r;
    let cube = square * r;
    let fourth = cube * r;
    assert(0 <= square <= r * 67108864) by (nonlinear_arith)
        requires
            0 <= r < 67108864,
            square == r * r,
    ;
    assert(0 <= cube <= r * 4503599627370496) by (nonlinear_arith)
        requires
            0 <= r < 67108864,
            0 <= square <= r * 67108864,
            cube == square * r,
    ;
    assert(0 <= fourth <= r * 302231454903657293676544) by (nonlinear_arith)
        requires
            0 <= r < 67108864,
            0 <= cube <= r * 4503599627370496,
            fourth == cube * r,
    ;
    assert(cube <= square * 67108864) by (nonlinear_arith)
        requires
            0 <= r < 67108864,
            0 <= square,
            cube == square * r,
    ;
    assert(2 * (DECAY_ONE as int) == 2147483648);
    assert(6 * (DECAY_ONE as int) * (DECAY_ONE as int) == 6917529027641081856);
    assert(24 * (DECAY_ONE as int) * (DECAY_ONE as int) * (DECAY_ONE as int)
        == 29710560942849126597578981376);
    assert(decay_series(r) == 1073741824 - r + square / 2147483648 - cube / 6917529027641081856
        + fourth / 29710560942849126597578981376);
}

/// The decay lies between zero and one; it is one for the exponent zero
/// only.
pub proof fn lemma_decay_of_exponent_bounds(y: int)
    requires
        0 <= y,
    ensures
        0 <= decay_of_exponent(y) <= DECAY_ONE as int,
        y == 0 ==> decay_of_exponent(y) == DECAY_ONE as int,
        y > 0 ==> decay_of_exponent(y) < DECAY_ONE as int,
        decay_of_exponent(y) >= DECAY_ONE as int - y,
    decreases y,
{
    if y < SERIES_LIMIT as int {
        lemma_decay_series_bounds(y);
    } else {
        let half = decay_of_exponent(y / 2);
        lemma_decay_of_exponent_bounds(y / 2);
        lemma_square_fraction(half, DECAY_ONE as int);
        if y / 2 < DECAY_ONE as int {
            lemma_square_above_tangent(half, y / 2, DECAY_ONE as int);
        }
    }
}

/// The series lies below the hyperbola `1 / (1 + r)`.
pub proof fn lemma_decay_series_below_hyperbola(r: int)
    requires
        0 <= r < SERIES_LIMIT as int,
    ensures
        decay_series(r) * (DECAY_ONE as int + r) <= (DECAY_ONE as int) * (DECAY_ONE as int),
{
    lemma_decay_series_bounds(r);
    let one = DECAY_ONE as int;
    let square = r * r;
    let fourth = r * r * r * r;
    let second_term = square / 2147483648;
    let third_term = r * r * r / 6917529027641081856;
    let fourth_term = fourth / 29710560942849126597578981376;
    let gain = second_term + fourth_term;
    assert(fourth == square * square) by (nonlinear_arith)
        requires
            square == r * r,
            fourth == r * r * r * r,
    ;
    assert(fourth <= square * 4503599627370496) by (nonlinear_arith)
        requires
            0 <= square <= 4503599627370496,
            fourth == square * square,
    ;
    assert(gain * 6597069766656 <= 3073 * square);
    assert(gain * (one + r) <= gain * 1140850688) by (nonlinear_arith)
        requires
            0 <= gain,
            0 <= one + r <= 1140850688,
    ;
    assert(gain * (one + r) <= square);
    let series = decay_series(r);
    assert(series == one - r + gain - third_term);
    assert(series * (one + r) <= (one - r + gain) * (one + r)) by (nonlinear_arith)
        requires
            series <= one - r + gain,
            0 <= one + r,
    ;
    assert((one - r + gain) * (one + r) == one * one - square + gain * (one + r))
        by (nonlinear_arith)
        requires
            square == r * r,
    ;
}

/// The decay lies below the hyperbola `1 / (1 + y)`.
pub proof fn lemma_decay_below_hyperbola(y: int)
    requires
        0 <= y,
    ensures
        decay_of_exponent(y) * (DECAY_ONE as int + y) <= (DECAY_ONE as int) * (DECAY_ONE as int),
    decreases y,
{
    let one = DECAY_ONE as int;
    if y < SERIES_LIMIT as int {
        lemma_decay_series_below_hyperbola(y);
    } else {
        let half = decay_of_exponent(y / 2);
        lemma_decay_of_exponent_bounds(y / 2);
        lemma_decay_below_hyperbola(y / 2);
        lemma_square_fraction(half, one);
        lemma_square_below_hyperbola(half, half * half / one, y / 2, y, one);
    }
}

/// Where `half` lies below the hyperbola at `x`, its square lies below the
/// hyperbola at `2x` and at `2x + 1`.
pub proof fn lemma_square_below_hyperbola(half: int, whole: int, x: int, y: int, one: int)
    requires
        one == 1073741824,
        0 <= half <= one,
        33554432 <= x,
        2 * x <= y <= 2 * x + 1,
        half * (one + x) <= one * one,
        0 <= whole,
        whole * one <= half * half,
    ensures
        whole * (one + y) <= one * one,
{
    let p = one + x;
    let q = one + y;
    let u = half * p;
    assert(one * q <= p * p) by (nonlinear_arith)
        requires
            p == one + x,
            q == one + y,
            one == 1073741824,
            33554432 <= x,
            2 * x <= y <= 2 * x + 1,
    ;
    assert(0 <= u && u * u <= (one * one) * (one * one)) by (nonlinear_arith)
        requires
            u == half * p,
            0 <= half,
            0 <= p,
            u <= one * one,
    ;
    assert((whole * one) * (one * q) <= (half * half) * (p * p)) by (nonlinear_arith)
        requires
            0 <= whole * one <= half * half,
            0 <= one * q <= p * p,
    ;
    assert((half * half) * (p * p) == u * u) by (nonlinear_arith)
        requires
            u == half * p,
    ;
    assert((whole * one) * (one * q) == (whole * q) * (one * one)) by (nonlinear_arith);
    assert(whole * q <= one * one) by (nonlinear_arith)
        requires
            (whole * q) * (one * one) <= (one * one) * (one * one),
            one * one > 0,
    ;
}

/// The square of a fraction that lies above `1 - x` lies above `1 - 2x`.
pub proof fn lemma_square_above_tangent(t: int, x: int, one: int)
    by (nonlinear_arith)
    requires
        0 <= x < one,
        one - x <= t,
    ensures
        t * t / one >= one - 2 * x,
{
    assert(t * t >= (one - x) * (one - x));
    assert((one - x) * (one - x) == one * (one - 2 * x) + x * x);
}

/// The square of a proper fraction is a proper fraction, and not greater.
pub proof fn lemma_square_fraction(t: int, one: int)
    by (nonlinear_arith)
    requires
        0 <= t < one,
    ensures
        0 <= t * t / one <= t,
        t * t <= one * one,
        (t * t / one) * one <= t * t,
{
}

/// Under positive friction time makes the velocity decay: the factor lies
/// between zero and one, and below one once any time has passed. As the
/// exponential does, it lies between the line `1 - x` and the hyperbola
/// `1 / (1 + x)`, where `x` is friction times time.
pub proof fn lemma_decay_factor_bounds(coefficient: int, dt_micros: int)
    requires
        coefficient > 0,
        dt_micros >= 0,
    ensures
        0 <= decay_factor_of(coefficient, dt_micros) <= DECAY_ONE as int,
        dt_micros == 0 ==> decay_factor_of(coefficient, dt_micros) == DECAY_ONE as int,
        dt_micros > 0 ==> decay_factor_of(coefficient, dt_micros) < DECAY_ONE as int,
        decay_factor_of(coefficient, dt_micros) >= DECAY_ONE as int - decay_exponent(
            coefficient,
            dt_micros,
        ),
        decay_factor_of(coefficient, dt_micros) * (DECAY_ONE as int + decay_exponent(
            coefficient,
            dt_micros,
        )) <= (DECAY_ONE as int) * (DECAY_ONE as int),
{
    let product = coefficient * dt_micros;
    assert(product >= 0 && (dt_micros > 0 ==> product >= 1) && (dt_micros == 0 ==> product == 0))
        by (nonlinear_arith)
        requires
            coefficient > 0,
            dt_micros >= 0,
            product == coefficient * dt_micros,
    ;
    let y = decay_exponent(coefficient, dt_micros);
    lemma_decay_of_exponent_bounds(y);
    lemma_decay_below_hyperbola(y);
}

/// A decay never makes a velocity faster or turns it round, and a decay
/// below one makes every velocity but zero strictly slower.
pub proof fn lemma_decayed_velocity_slows(velocity: int, decay: int)
    requires
        0 <= decay <= DECAY_ONE as int,
    ensures
        magnitude(decayed_velocity(velocity, decay)) <= magnitude(velocity),
        velocity >= 0 ==> decayed_velocity(velocity, decay) >= 0,
        velocity <= 0 ==> decayed_velocity(velocity, decay) <= 0,
        decay < DECAY_ONE as int && velocity != 0 ==> magnitude(
            decayed_velocity(velocity, decay),
        ) < magnitude(velocity),
        decay == DECAY_ONE as int ==> decayed_velocity(velocity, decay) == velocity,
{
    let one = DECAY_ONE as int;
    let speed = magnitude(velocity);
    lemma_div_toward_zero_sign(velocity * decay, one);
    assert(magnitude(velocity * decay) == speed * decay && (velocity >= 0 ==> velocity * decay
        >= 0) && (velocity <= 0 ==> velocity * decay <= 0)) by (nonlinear_arith)
        requires
            0 <= decay,
            speed == magnitude(velocity),
    ;
    assert(speed * decay / one <= speed && (decay < one && speed > 0 ==> speed * decay / one
        < speed) && (decay == one ==> speed * decay / one == speed)) by (nonlinear_arith)
        requires
            0 <= decay <= one,
            one > 0,
            speed >= 0,
    ;
}

/// Computes [`decay_of_exponent`].
pub fn decay_for_exponent(y: u128) -> (decay: u64)
    ensures
        decay == decay_of_exponent(y as int),
        decay <= DECAY_ONE,
        y > 0 ==> decay < DECAY_ONE,
    decreases y,
{
    proof {
        lemma_decay_of_exponent_bounds(y as int);
    }
    if y < SERIES_LIMIT as u128 {
        let r: u128 = y;
        let one: u128 = DECAY_ONE as u128;
        proof {
            lemma_decay_series_bounds(r as int);
        }
        let square: u128 = r * r;
        let cube: u128 = square * r;
        let second: u128 = square / (2 * one);
        let third: u128 = cube / (6 * one * one);
        let fourth: u128 = cube * r / (24 * one * one * one);
        assert(2 * one == 2147483648 && 6 * one * one == 6917529027641081856 && 24 * one * one
            * one == 29710560942849126597578981376);
        let series: u128 = one - r + second - third + fourth;
        series as u64
    } else {
        let half: u64 = decay_for_exponent(y / 2);
        proof {
            lemma_decay_of_exponent_bounds((y / 2) as int);
            lemma_square_fraction(half as int, DECAY_ONE as int);
        }
        half * half / DECAY_ONE
    }
}

/// The fraction of a velocity that is left after `dt_micros` microseconds
/// under the friction `coefficient`, in thousandths per second.
pub fn decay_factor(coefficient: i64, dt_micros: u32) -> (decay: u64)
    requires
        coefficient > 0,
    ensures
        decay == decay_factor_of(coefficient as int, dt_micros as int),
        decay <= DECAY_ONE,
        dt_micros > 0 ==> decay < DECAY_ONE,
{
    proof {
        lemma_decay_factor_bounds(coefficient as int, dt_micros as int);
    }
    assert(0 <= coefficient * dt_micros <= 0x7fff_ffff_ffff_ffff * 0xffff_ffff)
        by (nonlinear_arith)
        requires
            0 < coefficient <= 0x7fff_ffff_ffff_ffff,
            0 <= dt_micros <= 0xffff_ffff,
    ;
    let product: u128 = coefficient as u128 * dt_micros as u128;
    assert(product * DECAY_ONE <= 0x7fff_ffff_ffff_ffff * 0xffff_ffff * 1073741824)
        by (nonlinear_arith)
        requires
            product == coefficient * dt_micros,
            0 < coefficient <= 0x7fff_ffff_ffff_ffff,
            0 <= dt_micros <= 0xffff_ffff,
    ;
    let y: u128 = product * DECAY_ONE as u128 / EXPONENT_SCALE as u128;
    decay_for_exponent(y)
}

/// One step of a fling that starts at `position` with `velocity`, under the
/// negative rate `friction` (thousandths per second) over `delta_t`
/// microseconds. It returns the new position and the new velocity: the
/// velocity times the decay factor, rounded toward zero, and the position
/// moved by the way travelled meanwhile, rounded away from zero within the
/// way that is left before the fling rests. A position beyond the `i64`
/// range stops at its end.
pub fn calc_position_and_velocity(position: i64, velocity: i64, friction: i64, delta_t: u32) -> (step: (
    i64,
    i64,
))
    requires
        friction < 0,
        friction > i64::MIN,
    ensures
        step.1 == decayed_velocity(
            velocity as int,
            decay_factor_of(-(friction as int), delta_t as int),
        ),
        step.0 == saturate(
            position + fling_displacement(
                velocity as int,
                -(friction as int),
                decay_factor_of(-(friction as int), delta_t as int),
            ),
        ),
        magnitude(step.1 as int) <= magnitude(velocity as int),
        delta_t > 0 && velocity != 0 ==> magnitude(step.1 as int) < magnitude(velocity as int),
{
    let coefficient: i64 = -friction;
    let decay: u64 = decay_factor(coefficient, delta_t);
    let one: i128 = DECAY_ONE as i128;
    let wide_velocity: i128 = velocity as i128;
    let wide_decay: i128 = decay as i128;
    proof {
        lemma_decayed_velocity_slows(velocity as int, decay as int);
    }
    assert(-0x8000_0000_0000_0000 * 1073741824 <= wide_velocity * wide_decay
        <= 0x8000_0000_0000_0000 * 1073741824) by (nonlinear_arith)
        requires
            -0x8000_0000_0000_0000 <= wide_velocity <= 0x7fff_ffff_ffff_ffff,
            0 <= wide_decay <= 1073741824,
    ;
    let new_velocity: i128 = divide_toward_zero(wide_velocity * wide_decay, one);
    let way: i128 = fling_way(velocity, coefficient, decay);
    (saturating_narrow(position as i128 + way), new_velocity as i64)
}

/// Computes [`fling_displacement`].
pub fn fling_way(velocity: i64, coefficient: i64, decay: u64) -> (way: i128)
    requires
        coefficient > 0,
        decay <= DECAY_ONE,
    ensures
        way == fling_displacement(velocity as int, coefficient as int, decay as int),
        magnitude(way as int) * coefficient <= magnitude(velocity as int) * UNIT,
{
    let speed: i128 = if velocity >= 0 {
        velocity as i128
    } else {
        -(velocity as i128)
    };
    let one: i128 = DECAY_ONE as i128;
    let lost: i128 = one - decay as i128;
    proof {
        lemma_fling_distance_bounds(speed as int, coefficient as int, decay as int);
    }
    assert(0 <= speed * lost <= 0x8000_0000_0000_0000 * 1073741824) by (nonlinear_arith)
        requires
            0 <= speed <= 0x8000_0000_0000_0000,
            0 <= lost <= 1073741824,
    ;
    assert(0 < coefficient * one <= 0x7fff_ffff_ffff_ffff * 1073741824) by (nonlinear_arith)
        requires
            0 < coefficient <= 0x7fff_ffff_ffff_ffff,
            one == 1073741824,
    ;
    let exact: i128 = speed * lost * UNIT as i128;
    let divisor: i128 = coefficient as i128 * one;
    let rounded_up: i128 = divide_toward_zero(exact + divisor - 1, divisor);
    let reach: i128 = divide_toward_zero(speed * UNIT as i128, coefficient as i128);
    let distance: i128 = if rounded_up <= reach {
        rounded_up
    } else {
        reach
    };
    assert(distance == fling_distance(speed as int, coefficient as int, decay as int));
    if velocity >= 0 {
        distance
    } else {
        -distance
    }
}

} // verus!
