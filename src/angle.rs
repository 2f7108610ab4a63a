//! Angle arithmetic in millidegrees: wrapping, shortest-arc interpolation,
//! easing and snapping to the isometric quadrant headings.
use vstd::prelude::*;

verus! {

/// One full turn, in millidegrees.
pub const FULL_TURN: i64 = 360_000;

/// Half a turn, in millidegrees.
pub const HALF_TURN: i64 = 180_000;

/// A quarter turn, the size of one camera spin step, in millidegrees.
pub const QUARTER_TURN: i64 = 90_000;

/// The heading offset of the isometric quadrants: rest headings are
/// `QUADRANT_OFFSET + k * QUARTER_TURN`.
pub const QUADRANT_OFFSET: i64 = 45_000;

/// The fixed-point unit of interpolation fractions (one millionth steps).
pub const FRACTION_ONE: u64 = 1_000_000;

/// `x` reduced into `[0, FULL_TURN)`.
pub open spec fn wrapped(x: int) -> int {
    x % (FULL_TURN as int)
}

/// The signed difference `d` brought into `(-HALF_TURN, HALF_TURN]`.
pub open spec fn shortest_delta(d: int) -> int {
    let m = d % (FULL_TURN as int);
    if m > HALF_TURN as int {
        m - FULL_TURN as int
    } else {
        m
    }
}

/// The angle a fraction `t` (in millionths) of the way from `a` to `b`
/// along the shorter arc, rounded down to a whole millidegree.
pub open spec fn lerp_angle(a: int, b: int, t: int) -> int {
    a + (shortest_delta(b - a) * t) / (FRACTION_ONE as int)
}

/// Cubic ease-in-out on millionths: `4a^3` on the first half and its mirror
/// image `1 - (2 - 2a)^3 / 2` on the second, rounded down.
pub open spec fn ease_in_out(a: int) -> int {
    let one = FRACTION_ONE as int;
    if 2 * a < one {
        (4 * a * a * a) / (one * one)
    } else {
        let r = 2 * one - 2 * a;
        one - (r * r * r) / (2 * one * one)
    }
}

/// `n / d` rounded to the nearest integer, halves away from zero.
pub open spec fn round_div(n: int, d: int) -> int {
    if n >= 0 {
        (n + d / 2) / d
    } else {
        -((-n + d / 2) / d)
    }
}

/// The rest heading nearest to `yaw`: the closest `QUADRANT_OFFSET + k *
/// QUARTER_TURN`, ties going away from the offset, reduced into a turn.
pub open spec fn snapped(yaw: int) -> int {
    let k = round_div(yaw - QUADRANT_OFFSET as int, QUARTER_TURN as int);
    wrapped(k * (QUARTER_TURN as int) + QUADRANT_OFFSET as int)
}

/// A heading that lies on one of the four isometric rest headings.
pub open spec fn is_rest_heading(yaw: int) -> bool {
    0 <= yaw < FULL_TURN as int && yaw % (QUARTER_TURN as int) == QUADRANT_OFFSET as int
}

/// Reduces an angle into `[0, FULL_TURN)`.
pub fn wrap_degrees(x: i64) -> (r: i64)
    ensures
        r as int == wrapped(x as int),
        0 <= r < FULL_TURN,
{
    x.checked_rem_euclid(FULL_TURN).unwrap()
}

/// Shortest-arc interpolation from `a` to `b` by the fraction `t` (millionths).
pub fn lerp_angle_deg(a: i64, b: i64, t: u64) -> (r: i64)
    requires
        t <= FRACTION_ONE,
        i64::MIN + HALF_TURN <= a <= i64::MAX - HALF_TURN,
    ensures
        r as int == lerp_angle(a as int, b as int, t as int),
        a - HALF_TURN <= r <= a + HALF_TURN,
{
    let d: i128 = (b as i128) - (a as i128);
    let m: i128 = d.checked_rem_euclid(FULL_TURN as i128).unwrap();
    let delta: i128 = if m > HALF_TURN as i128 {
        m - FULL_TURN as i128
    } else {
        m
    };
    assert(delta == shortest_delta(b - a));
    proof {
        lemma_scaled_delta_bound(delta as int, t as int);
    }
    let scaled: i128 = (delta * (t as i128)).checked_div_euclid(FRACTION_ONE as i128).unwrap();
    (a as i128 + scaled) as i64
}

proof fn lemma_scaled_delta_bound(delta: int, t: int)
    requires
        -(HALF_TURN as int) < delta <= HALF_TURN as int,
        0 <= t <= FRACTION_ONE as int,
    ensures
        -(HALF_TURN as int) <= (delta * t) / (FRACTION_ONE as int) <= HALF_TURN as int,
        -(HALF_TURN as int) * (FRACTION_ONE as int) <= delta * t <= (HALF_TURN as int) * (FRACTION_ONE as int),
{
    let one = FRACTION_ONE as int;
    let h = HALF_TURN as int;
    if delta >= 0 {
        assert(0 <= delta * t <= h * one) by (nonlinear_arith)
            requires 0 <= delta <= h, 0 <= t <= one;
    } else {
        assert(-h * one <= delta * t <= 0) by (nonlinear_arith)
            requires -h <= delta < 0, 0 <= t <= one;
    }
    vstd::arithmetic::div_mod::lemma_div_is_ordered(delta * t, h * one, one);
    vstd::arithmetic::div_mod::lemma_div_is_ordered(-h * one, delta * t, one);
    vstd::arithmetic::div_mod::lemma_div_multiples_vanish(h, one);
    vstd::arithmetic::div_mod::lemma_div_multiples_vanish(-h, one);
}

/// Cubic ease-in-out of an interpolation fraction, in millionths.
pub fn ease_in_out_cubic(a: u64) -> (r: u64)
    requires
        a <= FRACTION_ONE,
    ensures
        r as int == ease_in_out(a as int),
        r <= FRACTION_ONE,
        a == 0 ==> r == 0,
        a == FRACTION_ONE ==> r == FRACTION_ONE,
{
    let one: u128 = FRACTION_ONE as u128;
    let x: u128 = a as u128;
    if 2 * x < one {
        proof {
            lemma_first_half_bound(x as int);
        }
        (4 * x * x * x / (one * one)) as u64
    } else {
        let rr: u128 = 2 * one - 2 * x;
        proof {
            lemma_second_half_bound(rr as int);
        }
        (one - rr * rr * rr / (2 * one * one)) as u64
    }
}

proof fn lemma_first_half_bound(x: int)
    requires
        0 <= x,
        2 * x < FRACTION_ONE as int,
    ensures
        0 <= 4 * x * x <= 4 * (FRACTION_ONE as int) * (FRACTION_ONE as int),
        0 <= 4 * x * x * x <= (FRACTION_ONE as int) * (FRACTION_ONE as int) * (FRACTION_ONE as int),
        (4 * x * x * x) / ((FRACTION_ONE as int) * (FRACTION_ONE as int)) <= FRACTION_ONE as int,
{
    let one = FRACTION_ONE as int;
    assert(0 <= 4 * x * x <= 4 * one * one) by (nonlinear_arith)
        requires 0 <= x, 2 * x < one, one == 1_000_000;
    assert(0 <= 4 * x * x * x <= one * one * one) by (nonlinear_arith)
        requires 0 <= x, 2 * x < one, one == 1_000_000;
    vstd::arithmetic::div_mod::lemma_div_is_ordered(4 * x * x * x, one * one * one, one * one);
    assert(one * one * one == one * (one * one)) by (nonlinear_arith);
    vstd::arithmetic::div_mod::lemma_div_multiples_vanish(one, one * one);
}

proof fn lemma_second_half_bound(r: int)
    requires
        0 <= r <= FRACTION_ONE as int,
    ensures
        0 <= r * r <= (FRACTION_ONE as int) * (FRACTION_ONE as int),
        0 <= r * r * r <= (FRACTION_ONE as int) * (FRACTION_ONE as int) * (FRACTION_ONE as int),
        0 <= (r * r * r) / (2 * (FRACTION_ONE as int) * (FRACTION_ONE as int)) <= FRACTION_ONE as int,
        r == 0 ==> (r * r * r) / (2 * (FRACTION_ONE as int) * (FRACTION_ONE as int)) == 0,
{
    let one = FRACTION_ONE as int;
    assert(0 <= r * r <= one * one) by (nonlinear_arith)
        requires 0 <= r <= one, one == 1_000_000;
    assert(0 <= r * r * r <= one * one * one) by (nonlinear_arith)
        requires 0 <= r <= one, one == 1_000_000;
    assert(one * one * one <= (2 * one * one) * one) by (nonlinear_arith)
        requires one == 1_000_000;
    vstd::arithmetic::div_mod::lemma_div_is_ordered(r * r * r, (2 * one * one) * one, 2 * one * one);
    vstd::arithmetic::div_mod::lemma_div_multiples_vanish(one, 2 * one * one);
    vstd::arithmetic::div_mod::lemma_div_is_ordered(0, r * r * r, 2 * one * one);
}

/// Snaps a heading to the nearest isometric rest heading, in `[0, FULL_TURN)`.
pub fn snap_to_quarter_turns(yaw: i64) -> (r: i64)
    ensures
        r as int == snapped(yaw as int),
        is_rest_heading(r as int),
{
    let rel: i128 = yaw as i128 - QUADRANT_OFFSET as i128;
    let q: i128 = QUARTER_TURN as i128;
    let k: i128 = if rel >= 0 {
        (rel + q / 2).checked_div_euclid(q).unwrap()
    } else {
        -((-rel + q / 2).checked_div_euclid(q).unwrap())
    };
    assert(k == round_div(yaw - QUADRANT_OFFSET, QUARTER_TURN as int));
    let s: i128 = k * q + QUADRANT_OFFSET as i128;
    let r: i128 = s.checked_rem_euclid(FULL_TURN as i128).unwrap();
    proof {
        lemma_rest_heading(k as int);
    }
    r as i64
}

/// Every value `k * QUARTER_TURN + QUADRANT_OFFSET`, once wrapped, is a rest heading.
pub proof fn lemma_rest_heading(k: int)
    ensures
        is_rest_heading(wrapped(k * (QUARTER_TURN as int) + QUADRANT_OFFSET as int)),
{
    let q = QUARTER_TURN as int;
    let f = FULL_TURN as int;
    let s = k * q + QUADRANT_OFFSET as int;
    vstd::arithmetic::div_mod::lemma_fundamental_div_mod(s, f);
    let w = s % f;
    assert(s == f * (s / f) + w);
    assert(w == (k - 4 * (s / f)) * q + QUADRANT_OFFSET as int) by (nonlinear_arith)
        requires s == f * (s / f) + w, s == k * q + 45_000, f == 360_000, q == 90_000;
    vstd::arithmetic::div_mod::lemma_mod_multiples_vanish(k - 4 * (s / f), QUADRANT_OFFSET as int, q);
}

/// Shortest-arc interpolation never travels more than half a turn from its
/// start, moves in the direction of the shorter arc, starts at `a` and, at the
/// full fraction, arrives at `b` up to whole turns.
pub proof fn lerp_angle_takes_shortest_arc(a: int, b: int, t: int)
    requires
        0 <= t <= FRACTION_ONE as int,
    ensures
        -(HALF_TURN as int) <= lerp_angle(a, b, t) - a <= HALF_TURN as int,
        shortest_delta(b - a) >= 0 ==> lerp_angle(a, b, t) >= a,
        shortest_delta(b - a) <= 0 ==> lerp_angle(a, b, t) <= a,
        lerp_angle(a, b, 0) == a,
        wrapped(lerp_angle(a, b, FRACTION_ONE as int)) == wrapped(b),
{
    let f = FULL_TURN as int;
    let one = FRACTION_ONE as int;
    let d = b - a;
    vstd::arithmetic::div_mod::lemma_mod_bound(d, f);
    lemma_scaled_delta_bound(shortest_delta(d), t);
    let sd = shortest_delta(d);
    if sd > 0 {
        assert(sd * t >= 0) by (nonlinear_arith)
            requires sd >= 0, t >= 0;
        vstd::arithmetic::div_mod::lemma_div_is_ordered(0, sd * t, one);
    } else if sd == 0 {
        assert(sd * t == 0) by (nonlinear_arith)
            requires sd == 0;
    } else {
        assert(sd * t <= 0) by (nonlinear_arith)
            requires sd < 0, t >= 0;
        vstd::arithmetic::div_mod::lemma_div_is_ordered(sd * t, 0, one);
    }
    assert(sd * one / one == sd) by {
        vstd::arithmetic::div_mod::lemma_div_multiples_vanish(sd, one);
    }
    assert(sd * 0 == 0);
    vstd::arithmetic::div_mod::lemma_fundamental_div_mod(d, f);
    let q = d / f;
    if d % f > HALF_TURN as int {
        assert(a + sd == f * (-q - 1) + b);
        vstd::arithmetic::div_mod::lemma_mod_multiples_vanish(-q - 1, b, f);
    } else {
        assert(a + sd == f * (-q) + b);
        vstd::arithmetic::div_mod::lemma_mod_multiples_vanish(-q, b, f);
    }
}

/// A heading strictly within an eighth of a turn of a rest heading snaps to
/// that rest heading.
pub proof fn snap_picks_nearest_rest_heading(yaw: int, k: int)
    requires
        -(QUADRANT_OFFSET as int) < yaw - (QUADRANT_OFFSET as int + k * (QUARTER_TURN as int))
            < QUADRANT_OFFSET as int,
    ensures
        snapped(yaw) == wrapped(QUADRANT_OFFSET as int + k * (QUARTER_TURN as int)),
{
    let q = QUARTER_TURN as int;
    let rel = yaw - QUADRANT_OFFSET as int;
    let e = rel - k * q;
    if rel >= 0 {
        assert(rel + q / 2 == k * q + (e + q / 2));
        vstd::arithmetic::div_mod::lemma_fundamental_div_mod_converse(rel + q / 2, q, k, e + q / 2);
    } else {
        assert(-rel + q / 2 == (-k) * q + (q / 2 - e));
        vstd::arithmetic::div_mod::lemma_fundamental_div_mod_converse(-rel + q / 2, q, -k, q / 2 - e);
    }
    assert(round_div(rel, q) == k);
}

/// A rest heading is left where it is by snapping.
pub proof fn lemma_snap_rest_heading(yaw: int)
    requires
        is_rest_heading(yaw),
    ensures
        snapped(yaw) == yaw,
{
    let q = QUARTER_TURN as int;
    vstd::arithmetic::div_mod::lemma_fundamental_div_mod(yaw, q);
    let k = yaw / q;
    assert(yaw == QUADRANT_OFFSET as int + k * q);
    snap_picks_nearest_rest_heading(yaw, k);
    vstd::arithmetic::div_mod::lemma_small_mod(yaw as nat, FULL_TURN as nat);
}

} // verus!
