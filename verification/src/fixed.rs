//! Fixed-point scalars.
//!
//! A scalar is an `i64` counting thousandths: `1500` is one and a half world
//! units (or degrees, or seconds).  Products and quotients rescale by
//! [`SCALE`] and round toward zero, the rounding of hardware division.

use vstd::prelude::*;

verus! {

/// Number of fixed-point steps per whole unit.
pub const SCALE: i64 = 1000;

/// Magnitude of an integer.
pub open spec fn iabs(a: int) -> int {
    if a >= 0 {
        a
    } else {
        -a
    }
}

/// Quotient of `a` by `b` rounded toward zero (the rounding of `/` on
/// machine integers), defined for `b != 0`.
pub open spec fn div_to_zero(a: int, b: int) -> int {
    if (a >= 0) == (b >= 0) {
        iabs(a) / iabs(b)
    } else {
        -(iabs(a) / iabs(b))
    }
}

/// Fixed-point product: `a * b / SCALE`, rounded toward zero.
pub open spec fn fp_mul_spec(a: int, b: int) -> int {
    div_to_zero(a * b, SCALE as int)
}

/// Fixed-point quotient: `a * SCALE / b`, rounded toward zero.
pub open spec fn fp_div_spec(a: int, b: int) -> int {
    div_to_zero(a * (SCALE as int), b)
}

/// The magnitude of a product is the product of the magnitudes.
pub proof fn lemma_abs_mul(a: int, b: int)
    ensures
        iabs(a * b) == iabs(a) * iabs(b),
{
    assert(iabs(a * b) == iabs(a) * iabs(b)) by (nonlinear_arith);
}

/// The sign of a product follows the signs of its factors.
pub proof fn lemma_sign_mul(a: int, b: int)
    ensures
        a * b > 0 ==> ((a < 0) <==> (b < 0)),
        a * b < 0 ==> ((a < 0) <==> !(b < 0)),
        a * b == 0 <==> (a == 0 || b == 0),
{
    assert(a * b > 0 ==> ((a < 0) <==> (b < 0))) by (nonlinear_arith);
    assert(a * b < 0 ==> ((a < 0) <==> !(b < 0))) by (nonlinear_arith);
    assert(a * b == 0 <==> (a == 0 || b == 0)) by (nonlinear_arith);
}

/// Magnitude of an `i64`, exact also at the type's minimum.
pub(crate) fn abs_u64(a: i64) -> (r: u64)
    ensures
        r as int == iabs(a as int),
{
    if a >= 0 {
        a as u64
    } else {
        let wide: i128 = a as i128;
        (-wide) as u64
    }
}

/// Fixed-point multiplication.  The bound on `a * b` is what lets the
/// rescaled product fit in an `i64`.
pub fn fp_mul(a: i64, b: i64) -> (r: i64)
    requires
        iabs(a as int * b as int) <= 1000 * 0x7fff_ffff_ffff_ffff,
    ensures
        r as int == fp_mul_spec(a as int, b as int),
{
    let negative = (a < 0) != (b < 0);
    let ma = abs_u64(a);
    let mb = abs_u64(b);
    proof {
        assert((ma as int) * (mb as int) < 0x1_0000_0000_0000_0000_0000_0000_0000_0000int)
            by (nonlinear_arith)
            requires
                ma < 0x1_0000_0000_0000_0000,
                mb < 0x1_0000_0000_0000_0000,
        ;
    }
    let product: u128 = (ma as u128) * (mb as u128);
    let q: u128 = product / 1000;
    proof {
        lemma_abs_mul(a as int, b as int);
        lemma_sign_mul(a as int, b as int);
        assert(product == iabs(a as int * b as int));
        assert(q <= 0x7fff_ffff_ffff_ffff) by {
            vstd::arithmetic::div_mod::lemma_div_is_ordered(
                product as int,
                1000int * 0x7fff_ffff_ffff_ffffint,
                1000int,
            );
            vstd::arithmetic::div_mod::lemma_div_multiples_vanish(
                0x7fff_ffff_ffff_ffffint,
                1000int,
            );
        }
        if a as int * b as int == 0 {
            assert(product == 0);
            assert(q == 0int / 1000int);
            vstd::arithmetic::div_mod::lemma_div_of0(1000int);
        }
    }
    if negative {
        -(q as i64)
    } else {
        q as i64
    }
}

/// Fixed-point division.  `b` must be nonzero; the bound on `a` keeps the
/// rescaled dividend within range.
pub fn fp_div(a: i64, b: i64) -> (r: i64)
    requires
        b != 0,
        iabs(a as int) <= 9_000_000_000_000_000,
    ensures
        r as int == fp_div_spec(a as int, b as int),
{
    let negative = (a < 0) != (b < 0);
    let ma = abs_u64(a);
    let mb = abs_u64(b);
    let dividend: u128 = (ma as u128) * 1000;
    let q: u128 = dividend / (mb as u128);
    proof {
        lemma_abs_mul(a as int, 1000);
        lemma_sign_mul(a as int, 1000);
        assert(iabs(a as int * 1000) == iabs(a as int) * 1000);
        assert(dividend == iabs(a as int * 1000));
        assert(q <= dividend) by {
            vstd::arithmetic::div_mod::lemma_div_nonincreasing(dividend as int, mb as int);
        }
        if a == 0 {
            assert(q == 0int / (mb as int));
            vstd::arithmetic::div_mod::lemma_div_of0(mb as int);
        }
    }
    if negative {
        -(q as i64)
    } else {
        q as i64
    }
}

/// Rounding toward zero never grows a magnitude.
pub proof fn lemma_div_to_zero_bound(a: int, b: int)
    requires
        b >= 1,
    ensures
        0 <= iabs(div_to_zero(a, b)) <= iabs(a),
{
    vstd::arithmetic::div_mod::lemma_div_nonincreasing(iabs(a), b);
    vstd::arithmetic::div_mod::lemma_div_pos_is_pos(iabs(a), b);
}

/// A dividend within `bound * b` divides down to within `bound`.
pub proof fn lemma_div_to_zero_le(a: int, b: int, bound: int)
    requires
        b >= 1,
        bound >= 0,
        iabs(a) <= bound * b,
    ensures
        iabs(div_to_zero(a, b)) <= bound,
{
    assert(bound * b == b * bound) by (nonlinear_arith);
    vstd::arithmetic::div_mod::lemma_div_is_ordered(iabs(a), b * bound, b);
    vstd::arithmetic::div_mod::lemma_div_multiples_vanish(bound, b);
    vstd::arithmetic::div_mod::lemma_div_pos_is_pos(iabs(a), b);
}

/// A dividend of at least `bound * b` divides down to at least `bound`.
pub proof fn lemma_div_to_zero_ge(a: int, b: int, bound: int)
    requires
        b >= 1,
        bound >= 0,
        iabs(a) >= bound * b,
    ensures
        iabs(div_to_zero(a, b)) >= bound,
{
    assert(bound * b == b * bound) by (nonlinear_arith);
    vstd::arithmetic::div_mod::lemma_div_is_ordered(b * bound, iabs(a), b);
    vstd::arithmetic::div_mod::lemma_div_multiples_vanish(bound, b);
    vstd::arithmetic::div_mod::lemma_div_pos_is_pos(iabs(a), b);
}

/// Divide a scalar by `SCALE`, rounding toward zero.
pub fn scale_down(a: i64) -> (r: i64)
    ensures
        r as int == div_to_zero(a as int, SCALE as int),
{
    let m = abs_u64(a);
    let q: u64 = m / 1000;
    proof {
        vstd::arithmetic::div_mod::lemma_fundamental_div_mod(m as int, 1000);
        vstd::arithmetic::div_mod::lemma_mod_bound(m as int, 1000);
        if a == 0 {
            vstd::arithmetic::div_mod::lemma_div_of0(1000int);
        }
    }
    if a < 0 {
        -(q as i64)
    } else {
        q as i64
    }
}

/// Halve a scalar, rounding toward zero.
pub fn halve(a: i64) -> (r: i64)
    ensures
        r as int == div_to_zero(a as int, 2),
{
    let m = abs_u64(a);
    let q: u64 = m / 2;
    proof {
        vstd::arithmetic::div_mod::lemma_fundamental_div_mod(m as int, 2);
        vstd::arithmetic::div_mod::lemma_mod_bound(m as int, 2);
        if a == 0 {
            vstd::arithmetic::div_mod::lemma_div_of0(2int);
        }
    }
    if a < 0 {
        -(q as i64)
    } else {
        q as i64
    }
}

/// Divide a wide intermediate by `SCALE`, rounding toward zero.  Used for
/// sums of products that only fit in 128 bits before rescaling.
pub fn scale_down_wide(a: i128) -> (r: i64)
    requires
        iabs(a as int) <= 1000 * 0x7fff_ffff_ffff_ffff,
    ensures
        r as int == div_to_zero(a as int, SCALE as int),
{
    let negative = a < 0;
    let m: u128 = if a >= 0 {
        a as u128
    } else {
        (-a) as u128
    };
    let q: u128 = m / 1000;
    proof {
        assert(q <= 0x7fff_ffff_ffff_ffff) by {
            vstd::arithmetic::div_mod::lemma_div_is_ordered(
                m as int,
                1000int * 0x7fff_ffff_ffff_ffffint,
                1000int,
            );
            vstd::arithmetic::div_mod::lemma_div_multiples_vanish(
                0x7fff_ffff_ffff_ffffint,
                1000int,
            );
        }
        if a == 0 {
            vstd::arithmetic::div_mod::lemma_div_of0(1000int);
        }
    }
    if negative {
        -(q as i64)
    } else {
        q as i64
    }
}

/// Integer square root: the largest `r` with `r * r <= n`.
pub fn isqrt_u64(n: u64) -> (r: u64)
    ensures
        (r as int) * (r as int) <= n as int,
        (n as int) < (r as int + 1) * (r as int + 1),
        r <= 0xffff_ffff,
{
    if n == 0 {
        return 0;
    }
    let mut lo: u64 = 0;
    let mut hi: u64 = 0x1_0000_0000;
    proof {
        assert((0x1_0000_0000 as int) * (0x1_0000_0000 as int) > n as int);
    }
    while hi - lo > 1
        invariant
            lo < hi <= 0x1_0000_0000,
            (lo as int) * (lo as int) <= n as int,
            (n as int) < (hi as int) * (hi as int),
        decreases hi - lo,
    {
        let mid = lo + (hi - lo) / 2;
        proof {
            assert(mid < 0x1_0000_0000);
            assert((mid as int) * (mid as int) < 0x1_0000_0000_0000_0000) by (nonlinear_arith)
                requires
                    mid < 0x1_0000_0000,
            ;
        }
        if mid * mid <= n {
            lo = mid;
        } else {
            hi = mid;
        }
    }
    lo
}

} // verus!
