//! Fixed-point trigonometry over thousandths of a degree.
//!
//! The sine on the first half turn is the classical rational approximation
//! `4d(180 - d) / (40500 - d(180 - d))` (for `d` in degrees), which is exact
//! at 0, 90 and 180 degrees and within about two thousandths elsewhere; the
//! rest of the circle follows by sign symmetry.  Cosine is the sine shifted
//! by a quarter turn.  Angles wrap around a full turn, so orientation state
//! may accumulate without bound.

use vstd::prelude::*;

use crate::fixed::{abs_u64, iabs};

verus! {

/// Thousandths of a degree in a full turn.
pub const FULL_TURN: i64 = 360_000;

/// Thousandths of a degree in a half turn.
pub const HALF_TURN: i64 = 180_000;

/// Thousandths of a degree in a quarter turn.
pub const QUARTER_TURN: i64 = 90_000;

/// Sine of `x` thousandths of a degree for `0 <= x <= 180_000`, in
/// thousandths of a unit.
pub open spec fn sin_half_turn(x: int) -> int {
    let t = x * (180_000 - x);
    (4000 * t) / (40_500_000_000 - t)
}

/// Sine of `x` thousandths of a degree, in thousandths of a unit.
pub open spec fn sin_spec(x: int) -> int {
    let r = x % 360_000;
    if r <= 180_000 {
        sin_half_turn(r)
    } else {
        -sin_half_turn(r - 180_000)
    }
}

/// Cosine of `x` thousandths of a degree, in thousandths of a unit.
pub open spec fn cos_spec(x: int) -> int {
    sin_spec(x + 90_000)
}

/// Remainder of `x` by a full turn, in `[0, 360_000)`.
pub fn reduce_angle(x: i64) -> (r: i64)
    ensures
        r as int == (x as int) % 360_000,
        0 <= r < 360_000,
{
    let magnitude = abs_u64(x);
    let m: u64 = magnitude % 360_000;
    if x >= 0 {
        m as i64
    } else if m == 0 {
        proof {
            vstd::arithmetic::div_mod::lemma_fundamental_div_mod(magnitude as int, 360_000);
            let d = magnitude as int / 360_000;
            assert(x as int == 360_000 * (-d));
            vstd::arithmetic::div_mod::lemma_mod_multiples_vanish(-d, 0, 360_000);
            vstd::arithmetic::div_mod::lemma_small_mod(0, 360_000);
        }
        0
    } else {
        proof {
            vstd::arithmetic::div_mod::lemma_fundamental_div_mod(magnitude as int, 360_000);
            let d = magnitude as int / 360_000;
            assert(x as int == 360_000 * (-d - 1) + (360_000 - m));
            vstd::arithmetic::div_mod::lemma_mod_multiples_vanish(-d - 1, 360_000 - m, 360_000);
            vstd::arithmetic::div_mod::lemma_small_mod((360_000 - m) as nat, 360_000);
        }
        360_000 - (m as i64)
    }
}

/// The peak of `x * (180_000 - x)` on the half turn is at the quarter turn.
proof fn lemma_arch_bound(x: int)
    requires
        0 <= x <= 180_000,
    ensures
        0 <= x * (180_000 - x) <= 8_100_000_000,
{
    assert(0 <= x * (180_000 - x) <= 8_100_000_000) by (nonlinear_arith)
        requires
            0 <= x <= 180_000,
    ;
}

/// Sine on the first half turn, by the rational approximation.
fn half_turn_sine(x: i64) -> (r: i64)
    requires
        0 <= x <= 180_000,
    ensures
        r as int == sin_half_turn(x as int),
        0 <= r <= 1000,
{
    proof {
        lemma_arch_bound(x as int);
    }
    let xu = x as u64;
    let t: u64 = xu * (180_000 - xu);
    let n: u64 = 4000 * t;
    let d: u64 = 40_500_000_000 - t;
    let q: u64 = n / d;
    proof {
        assert(n <= 1000 * d);
        vstd::arithmetic::div_mod::lemma_div_is_ordered(n as int, 1000 * d as int, d as int);
        vstd::arithmetic::div_mod::lemma_div_multiples_vanish(1000, d as int);
        vstd::arithmetic::div_mod::lemma_div_pos_is_pos(n as int, d as int);
    }
    q as i64
}

/// Sine of a fixed-point angle in thousandths of a degree.
pub fn sin_deg(x: i64) -> (r: i64)
    ensures
        r as int == sin_spec(x as int),
        -1000 <= r <= 1000,
{
    let a = reduce_angle(x);
    if a <= 180_000 {
        half_turn_sine(a)
    } else {
        -half_turn_sine(a - 180_000)
    }
}

/// The sine only depends on the angle's remainder by a full turn.
pub proof fn lemma_sin_congruent(a: int, b: int)
    requires
        a % 360_000 == b % 360_000,
    ensures
        sin_spec(a) == sin_spec(b),
{
}

/// Cosine of a fixed-point angle in thousandths of a degree.
pub fn cos_deg(x: i64) -> (r: i64)
    ensures
        r as int == cos_spec(x as int),
        -1000 <= r <= 1000,
{
    let a = reduce_angle(x);
    let r = sin_deg(a + 90_000);
    proof {
        vstd::arithmetic::div_mod::lemma_add_mod_noop(x as int, 90_000, 360_000);
        vstd::arithmetic::div_mod::lemma_small_mod(90_000, 360_000);
        vstd::arithmetic::div_mod::lemma_mod_bound(a as int + 90_000, 360_000);
        vstd::arithmetic::div_mod::lemma_mod_bound(x as int + 90_000, 360_000);
        lemma_sin_congruent(a as int + 90_000, x as int + 90_000);
    }
    r
}

/// The rational sine stays within a unit on the first half turn.
proof fn lemma_half_turn_bounds(x: int)
    requires
        0 <= x <= 180_000,
    ensures
        0 <= sin_half_turn(x) <= 1000,
{
    lemma_arch_bound(x);
    let t = x * (180_000 - x);
    let n = 4000 * t;
    let d = 40_500_000_000 - t;
    assert(n <= 1000 * d);
    assert(1000 * d == d * 1000) by (nonlinear_arith);
    vstd::arithmetic::div_mod::lemma_div_is_ordered(n, d * 1000, d);
    vstd::arithmetic::div_mod::lemma_div_multiples_vanish(1000, d);
    vstd::arithmetic::div_mod::lemma_div_pos_is_pos(n, d);
}

/// The sine of any angle stays within a unit.
pub proof fn lemma_sin_bounded(x: int)
    ensures
        -1000 <= sin_spec(x) <= 1000,
{
    vstd::arithmetic::div_mod::lemma_mod_bound(x, 360_000);
    let r = x % 360_000;
    if r <= 180_000 {
        lemma_half_turn_bounds(r);
    } else {
        lemma_half_turn_bounds(r - 180_000);
    }
}

/// On half-degree to quarter-turn angles the sine is strictly positive, so
/// it may stand as a divisor.
pub proof fn lemma_sin_positive(x: int)
    requires
        500 <= x <= 135_000,
    ensures
        sin_spec(x) >= 1,
{
    vstd::arithmetic::div_mod::lemma_small_mod(x as nat, 360_000);
    assert(x * (180_000 - x) >= 89_750_000) by (nonlinear_arith)
        requires
            500 <= x <= 135_000,
    ;
    assert(x * (180_000 - x) <= 8_100_000_000) by (nonlinear_arith)
        requires
            500 <= x <= 135_000,
    ;
    let t = x * (180_000 - x);
    let n = 4000 * t;
    let d = 40_500_000_000 - t;
    assert(n >= d);
    vstd::arithmetic::div_mod::lemma_div_is_ordered(d, n, d);
    vstd::arithmetic::div_mod::lemma_div_by_self(d);
}

/// A sine of at most one thousandth pins the angle within an eighth of a
/// degree of a half-turn mark.
proof fn lemma_small_sin_angle(a: int)
    requires
        0 <= a <= 180_000,
        iabs(sin_half_turn(a)) <= 1,
    ensures
        a <= 112 || a >= 179_888,
{
    lemma_arch_bound(a);
    let t = a * (180_000 - a);
    let n = 4000 * t;
    let d = 40_500_000_000 - t;
    vstd::arithmetic::div_mod::lemma_div_pos_is_pos(n, d);
    if n >= 2 * d {
        vstd::arithmetic::div_mod::lemma_div_is_ordered(d * 2, n, d);
        vstd::arithmetic::div_mod::lemma_div_multiples_vanish(2, d);
        assert(false);
    }
    assert(t <= 20_239_880);
    if 113 <= a <= 179_887 {
        assert(a * (180_000 - a) >= 20_327_231) by (nonlinear_arith)
            requires
                113 <= a <= 179_887,
        ;
        assert(false);
    }
}

/// Within an eighth of a degree of the quarter turn, the sine is within a
/// thousandth of full scale.
proof fn lemma_near_peak_sine(a: int)
    requires
        89_888 <= a <= 90_112,
    ensures
        sin_half_turn(a) >= 999,
{
    assert(a * (180_000 - a) >= 8_099_987_456) by (nonlinear_arith)
        requires
            89_888 <= a <= 90_112,
    ;
    lemma_arch_bound(a);
    let t = a * (180_000 - a);
    let n = 4000 * t;
    let d = 40_500_000_000 - t;
    assert(d * 999 <= n);
    vstd::arithmetic::div_mod::lemma_div_is_ordered(d * 999, n, d);
    vstd::arithmetic::div_mod::lemma_div_multiples_vanish(999, d);
}

/// A sine no larger than a thousandth forces a cosine within a thousandth
/// of full scale: the two cannot both be small.
pub proof fn lemma_small_sin_large_cos(x: int)
    requires
        iabs(sin_spec(x)) <= 1,
    ensures
        iabs(cos_spec(x)) >= 999,
{
    vstd::arithmetic::div_mod::lemma_mod_bound(x, 360_000);
    let r = x % 360_000;
    if r <= 180_000 {
        lemma_small_sin_angle(r);
    } else {
        lemma_small_sin_angle(r - 180_000);
    }
    assert((0 <= r <= 112) || (179_888 <= r <= 180_112) || (359_888 <= r < 360_000));
    vstd::arithmetic::div_mod::lemma_add_mod_noop(x, 90_000, 360_000);
    vstd::arithmetic::div_mod::lemma_small_mod(90_000, 360_000);
    let r2 = (x + 90_000) % 360_000;
    assert(r2 == (r + 90_000) % 360_000);
    if r < 270_000 {
        vstd::arithmetic::div_mod::lemma_small_mod((r + 90_000) as nat, 360_000);
        assert(r2 == r + 90_000);
    } else {
        vstd::arithmetic::div_mod::lemma_mod_multiples_vanish(-1, r - 270_000, 360_000);
        vstd::arithmetic::div_mod::lemma_small_mod((r - 270_000) as nat, 360_000);
        assert(360_000 * (-1) + (r - 270_000 + 360_000) == r + 90_000 - 360_000 + 0);
        assert(r2 == r - 270_000);
    }
    if 0 <= r <= 112 {
        lemma_near_peak_sine(r2);
    } else if 179_888 <= r <= 180_112 {
        lemma_near_peak_sine(r2 - 180_000);
    } else {
        lemma_near_peak_sine(r2);
    }
}

/// The sine and cosine at the four cardinal directions are exact.
pub proof fn lemma_cardinal_values()
    ensures
        sin_spec(0) == 0,
        sin_spec(90_000) == 1000,
        sin_spec(180_000) == 0,
        sin_spec(270_000) == -1000,
        sin_spec(-90_000) == -1000,
        cos_spec(0) == 1000,
        cos_spec(90_000) == 0,
        cos_spec(180_000) == -1000,
        cos_spec(270_000) == 0,
        cos_spec(-90_000) == 0,
{
    vstd::arithmetic::div_mod::lemma_small_mod(0, 360_000);
    vstd::arithmetic::div_mod::lemma_small_mod(90_000, 360_000);
    vstd::arithmetic::div_mod::lemma_small_mod(180_000, 360_000);
    vstd::arithmetic::div_mod::lemma_small_mod(270_000, 360_000);
    assert((-90_000) % 360_000 == 270_000) by {
        vstd::arithmetic::div_mod::lemma_mod_multiples_vanish(-1, 270_000, 360_000);
        vstd::arithmetic::div_mod::lemma_small_mod(270_000, 360_000);
        assert(360_000 * (-1) + 270_000 == -90_000);
    }
    assert((360_000int) % 360_000 == 0) by {
        vstd::arithmetic::div_mod::lemma_mod_multiples_vanish(1, 0, 360_000);
        vstd::arithmetic::div_mod::lemma_small_mod(0, 360_000);
        assert(360_000 * 1 + 0 == 360_000);
    }
    lemma_sin_zero_points();
    lemma_sin_peak();
    lemma_sin_congruent(360_000, 0);
}

/// The rational sine vanishes at both ends of the half turn.
proof fn lemma_sin_zero_points()
    ensures
        sin_half_turn(0) == 0,
        sin_half_turn(180_000) == 0,
{
    assert(0int * (180_000 - 0) == 0) by (nonlinear_arith);
    assert(180_000int * (180_000 - 180_000) == 0) by (nonlinear_arith);
    vstd::arithmetic::div_mod::lemma_div_of0(40_500_000_000);
}

/// The rational sine is exactly one at the quarter turn.
proof fn lemma_sin_peak()
    ensures
        sin_half_turn(90_000) == 1000,
{
    assert(90_000int * (180_000 - 90_000) == 8_100_000_000) by (nonlinear_arith);
    assert(4000int * 8_100_000_000 == 32_400_000_000_000) by (nonlinear_arith);
    assert(32_400_000_000int * 1000 == 32_400_000_000_000) by (nonlinear_arith);
    vstd::arithmetic::div_mod::lemma_div_multiples_vanish(1000, 32_400_000_000);
}

} // verus!
