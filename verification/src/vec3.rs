//! Fixed-point 3D vectors.
//!
//! Components are thousandths of a world unit, like every scalar in this
//! crate.  A direction vector is "unit" when its components are the
//! thousandths of a real unit vector, so its norm is close to [`SCALE`].

use vstd::prelude::*;

use crate::fixed::{div_to_zero, fp_div, fp_div_spec, iabs, isqrt_u64, scale_down, SCALE};

verus! {

/// Largest component magnitude accepted by the products below; keeps every
/// dot and cross product within an `i64`.
pub const COORD_LIMIT: i64 = 1_000_000_000;

#[derive(Clone, Copy, Debug, PartialEq, Eq, Structural)]
pub struct Vec3 {
    pub x: i64,
    pub y: i64,
    pub z: i64,
}

/// All three components within `limit` in magnitude.
pub open spec fn in_bounds(v: Vec3, limit: int) -> bool {
    iabs(v.x as int) <= limit && iabs(v.y as int) <= limit && iabs(v.z as int) <= limit
}

pub open spec fn dot_spec(a: Vec3, b: Vec3) -> int {
    a.x * b.x + a.y * b.y + a.z * b.z
}

pub open spec fn norm_sq_spec(v: Vec3) -> int {
    dot_spec(v, v)
}

pub open spec fn cross_x_spec(a: Vec3, b: Vec3) -> int {
    a.y * b.z - a.z * b.y
}

pub open spec fn cross_y_spec(a: Vec3, b: Vec3) -> int {
    a.z * b.x - a.x * b.z
}

pub open spec fn cross_z_spec(a: Vec3, b: Vec3) -> int {
    a.x * b.y - a.y * b.x
}

/// Largest integer whose square does not exceed `n`.
pub open spec fn sqrt_floor(n: nat) -> nat
    decreases n,
{
    if n == 0 {
        0
    } else {
        let s = sqrt_floor((n - 1) as nat);
        if (s + 1) * (s + 1) <= n {
            s + 1
        } else {
            s
        }
    }
}

pub proof fn lemma_sqrt_floor(n: nat)
    ensures
        sqrt_floor(n) * sqrt_floor(n) <= n,
        n < (sqrt_floor(n) + 1) * (sqrt_floor(n) + 1),
    decreases n,
{
    if n > 0 {
        lemma_sqrt_floor((n - 1) as nat);
        let s = sqrt_floor((n - 1) as nat);
        if (s + 1) * (s + 1) <= n {
            assert(sqrt_floor(n) == s + 1);
            assert(n <= (s + 1) * (s + 1));
            assert((s + 1) * (s + 1) < (s + 2) * (s + 2)) by (nonlinear_arith);
            assert(n < (s + 2) * (s + 2));
            assert(sqrt_floor(n) + 1 == s + 2);
            assert(n < (sqrt_floor(n) + 1) * (sqrt_floor(n) + 1));
        } else {
            assert(sqrt_floor(n) == s);
            assert(n < (s + 1) * (s + 1));
        }
    } else {
        assert(sqrt_floor(0) == 0);
        assert((0nat + 1) * (0nat + 1) == 1) by (nonlinear_arith);
    }
}

/// Two integers that both bracket `n` between consecutive squares are equal.
pub proof fn lemma_sqrt_unique(n: int, r1: int, r2: int)
    requires
        r1 >= 0,
        r2 >= 0,
        r1 * r1 <= n < (r1 + 1) * (r1 + 1),
        r2 * r2 <= n < (r2 + 1) * (r2 + 1),
    ensures
        r1 == r2,
{
    assert(r1 == r2) by (nonlinear_arith)
        requires
            r1 >= 0,
            r2 >= 0,
            r1 * r1 <= n < (r1 + 1) * (r1 + 1),
            r2 * r2 <= n < (r2 + 1) * (r2 + 1),
    ;
}

/// Component-wise view of normalization: each component is rescaled by
/// `SCALE` and divided by the floor of the norm; the zero vector stays zero.
pub open spec fn normalized_x_spec(v: Vec3) -> int {
    if norm_sq_spec(v) == 0 {
        0
    } else {
        fp_div_spec(v.x as int, sqrt_floor(norm_sq_spec(v) as nat) as int)
    }
}

pub open spec fn normalized_y_spec(v: Vec3) -> int {
    if norm_sq_spec(v) == 0 {
        0
    } else {
        fp_div_spec(v.y as int, sqrt_floor(norm_sq_spec(v) as nat) as int)
    }
}

pub open spec fn normalized_z_spec(v: Vec3) -> int {
    if norm_sq_spec(v) == 0 {
        0
    } else {
        fp_div_spec(v.z as int, sqrt_floor(norm_sq_spec(v) as nat) as int)
    }
}

/// A vector written down from its mathematical components.
pub open spec fn v3_from(x: int, y: int, z: int) -> Vec3 {
    Vec3 { x: x as i64, y: y as i64, z: z as i64 }
}

/// Component-wise sum.
pub open spec fn add_v(a: Vec3, b: Vec3) -> Vec3 {
    v3_from(a.x + b.x, a.y + b.y, a.z + b.z)
}

/// Component-wise difference.
pub open spec fn sub_v(a: Vec3, b: Vec3) -> Vec3 {
    v3_from(a.x - b.x, a.y - b.y, a.z - b.z)
}

/// Fixed-point scaling as a vector.
pub open spec fn scale_v(v: Vec3, s: int) -> Vec3 {
    v3_from(
        crate::fixed::fp_mul_spec(v.x as int, s),
        crate::fixed::fp_mul_spec(v.y as int, s),
        crate::fixed::fp_mul_spec(v.z as int, s),
    )
}

/// Normalization as a vector.
pub open spec fn norm_v(v: Vec3) -> Vec3 {
    v3_from(normalized_x_spec(v), normalized_y_spec(v), normalized_z_spec(v))
}

/// Cross product as a vector, at product scale.
pub open spec fn cross_v(a: Vec3, b: Vec3) -> Vec3 {
    v3_from(cross_x_spec(a, b), cross_y_spec(a, b), cross_z_spec(a, b))
}

/// Cross product of two unit-scale vectors, rescaled back to unit scale.
pub open spec fn cross_unit_v(a: Vec3, b: Vec3) -> Vec3 {
    v3_from(
        div_to_zero(cross_x_spec(a, b), SCALE as int),
        div_to_zero(cross_y_spec(a, b), SCALE as int),
        div_to_zero(cross_z_spec(a, b), SCALE as int),
    )
}

/// Dot product of a unit-scale vector with a point, rescaled to unit scale.
pub open spec fn dot_scaled_spec(a: Vec3, b: Vec3) -> int {
    div_to_zero(dot_spec(a, b), SCALE as int)
}

/// `|a| <= c` and `|b| <= d` bound the product by `c * d`.
pub proof fn lemma_mul_bound(a: int, b: int, c: int, d: int)
    requires
        iabs(a) <= c,
        iabs(b) <= d,
    ensures
        iabs(a * b) <= c * d,
{
    assert(iabs(a * b) <= c * d) by (nonlinear_arith)
        requires
            iabs(a) <= c,
            iabs(b) <= d,
    ;
}

/// Component bounds on the operands bound a rescaled dot product.
pub proof fn lemma_dot_scaled_bound(a: Vec3, b: Vec3, la: int, lb: int)
    requires
        in_bounds(a, la),
        in_bounds(b, lb),
        la >= 0,
        lb >= 0,
    ensures
        iabs(dot_scaled_spec(a, b)) <= 3 * (la * lb),
        iabs(dot_spec(a, b)) <= 3 * (la * lb),
{
    lemma_mul_bound(a.x as int, b.x as int, la, lb);
    lemma_mul_bound(a.y as int, b.y as int, la, lb);
    lemma_mul_bound(a.z as int, b.z as int, la, lb);
    crate::fixed::lemma_div_to_zero_bound(dot_spec(a, b), 1000);
}

/// Every component of a normalized vector stays within the unit scale.
pub proof fn lemma_normalized_bounds(v: Vec3)
    ensures
        iabs(normalized_x_spec(v)) <= SCALE as int,
        iabs(normalized_y_spec(v)) <= SCALE as int,
        iabs(normalized_z_spec(v)) <= SCALE as int,
{
    lemma_norm_sq_parts(v);
    let ns = norm_sq_spec(v);
    if ns != 0 {
        lemma_sqrt_floor(ns as nat);
        let length = sqrt_floor(ns as nat) as int;
        if length == 0 {
            assert((0int + 1) * (0int + 1) == 1) by (nonlinear_arith);
            assert(false);
        }
        lemma_normalized_component_bound(v.x as int, ns, length);
        lemma_normalized_component_bound(v.y as int, ns, length);
        lemma_normalized_component_bound(v.z as int, ns, length);
    }
}

/// A vector is exactly perpendicular to its cross product with any other
/// vector, in exact integer arithmetic.
pub proof fn lemma_cross_orthogonal(a: Vec3, b: Vec3)
    requires
        in_bounds(a, COORD_LIMIT as int),
        in_bounds(b, COORD_LIMIT as int),
    ensures
        dot_spec(a, cross_v(a, b)) == 0,
        dot_spec(b, cross_v(a, b)) == 0,
{
    lemma_mul_bound(a.y as int, b.z as int, COORD_LIMIT as int, COORD_LIMIT as int);
    lemma_mul_bound(a.z as int, b.y as int, COORD_LIMIT as int, COORD_LIMIT as int);
    lemma_mul_bound(a.z as int, b.x as int, COORD_LIMIT as int, COORD_LIMIT as int);
    lemma_mul_bound(a.x as int, b.z as int, COORD_LIMIT as int, COORD_LIMIT as int);
    lemma_mul_bound(a.x as int, b.y as int, COORD_LIMIT as int, COORD_LIMIT as int);
    lemma_mul_bound(a.y as int, b.x as int, COORD_LIMIT as int, COORD_LIMIT as int);
    assert((COORD_LIMIT as int) * (COORD_LIMIT as int) == 0x0de0_b6b3_a764_0000int)
        by (nonlinear_arith);
    let cx = cross_x_spec(a, b);
    let cy = cross_y_spec(a, b);
    let cz = cross_z_spec(a, b);
    assert(cross_v(a, b).x as int == cx);
    assert(cross_v(a, b).y as int == cy);
    assert(cross_v(a, b).z as int == cz);
    assert(a.x * cx + a.y * cy + a.z * cz == 0) by (nonlinear_arith)
        requires
            cx == a.y * b.z - a.z * b.y,
            cy == a.z * b.x - a.x * b.z,
            cz == a.x * b.y - a.y * b.x,
    ;
    assert(b.x * cx + b.y * cy + b.z * cz == 0) by (nonlinear_arith)
        requires
            cx == a.y * b.z - a.z * b.y,
            cy == a.z * b.x - a.x * b.z,
            cz == a.x * b.y - a.y * b.x,
    ;
}

/// One component of a normalization: its magnitude is the rescaled quotient,
/// and it brackets the exact ratio from both sides.
proof fn lemma_normalized_component_brackets(c: int, length: int)
    requires
        length >= 1,
        iabs(c) <= 1_000_000_000,
    ensures
        iabs(fp_div_spec(c, length)) * length <= 1000 * iabs(c),
        1000 * iabs(c) < (iabs(fp_div_spec(c, length)) + 1) * length,
        fp_div_spec(c, length) * fp_div_spec(c, length) == iabs(fp_div_spec(c, length)) * iabs(
            fp_div_spec(c, length),
        ),
{
    crate::fixed::lemma_abs_mul(c, 1000);
    let a = iabs(c) * 1000;
    let q = a / length;
    vstd::arithmetic::div_mod::lemma_fundamental_div_mod(a, length);
    vstd::arithmetic::div_mod::lemma_mod_bound(a, length);
    vstd::arithmetic::div_mod::lemma_div_pos_is_pos(a, length);
    assert(iabs(fp_div_spec(c, length)) == q);
    assert(q * length <= a && a < (q + 1) * length) by (nonlinear_arith)
        requires
            a == length * q + a % length,
            0 <= a % length < length,
    ;
    let d = fp_div_spec(c, length);
    assert(d * d == iabs(d) * iabs(d)) by (nonlinear_arith);
}

/// Distributing a common factor over a three-part sum.
proof fn lemma_distribute3(a: int, b: int, c: int, f: int)
    ensures
        (a + b + c) * f == a * f + b * f + c * f,
{
    assert((a + b + c) * f == a * f + b * f + c * f) by (nonlinear_arith);
}

/// Summed strict undershoot bounds force the rescaled squares close to one
/// squared unit from below.
proof fn lemma_near_unit_lower(
    sx: int,
    sy: int,
    sz: int,
    qx: int,
    qy: int,
    qz: int,
    ll: int,
)
    requires
        qx >= 0,
        qy >= 0,
        qz >= 0,
        ll >= 1,
        1_000_000 * sx < ((qx + 1) * (qx + 1)) * ll,
        1_000_000 * sy < ((qy + 1) * (qy + 1)) * ll,
        1_000_000 * sz < ((qz + 1) * (qz + 1)) * ll,
        ll <= sx + sy + sz,
    ensures
        1_000_000 < qx * qx + qy * qy + qz * qz + 2 * (qx + qy + qz) + 3,
{
    lemma_distribute3((qx + 1) * (qx + 1), (qy + 1) * (qy + 1), (qz + 1) * (qz + 1), ll);
    let total = (qx + 1) * (qx + 1) + (qy + 1) * (qy + 1) + (qz + 1) * (qz + 1);
    assert(1_000_000 * ll < total * ll) by (nonlinear_arith)
        requires
            1_000_000 * sx < ((qx + 1) * (qx + 1)) * ll,
            1_000_000 * sy < ((qy + 1) * (qy + 1)) * ll,
            1_000_000 * sz < ((qz + 1) * (qz + 1)) * ll,
            ll <= sx + sy + sz,
            total * ll == ((qx + 1) * (qx + 1)) * ll + ((qy + 1) * (qy + 1)) * ll + ((qz + 1) * (
            qz + 1)) * ll,
    ;
    assert(1_000_000 < total) by (nonlinear_arith)
        requires
            1_000_000 * ll < total * ll,
            ll >= 1,
    ;
    assert(total == qx * qx + qy * qy + qz * qz + 2 * (qx + qy + qz) + 3) by (nonlinear_arith)
        requires
            total == (qx + 1) * (qx + 1) + (qy + 1) * (qy + 1) + (qz + 1) * (qz + 1),
    ;
}

/// A rescaled square sum bounded through the root's square stays within a
/// quarter percent over one squared unit once the root has three digits.
proof fn lemma_near_unit_upper(qq: int, length: int, ns: int)
    requires
        qq >= 0,
        length >= 900,
        qq * (length * length) <= 1_000_000 * ns,
        ns < (length + 1) * (length + 1),
    ensures
        qq <= 1_002_223,
{
    assert(1_000_000 * ns <= 1_000_000 * (length * length) + 2_000_000 * length + 1_000_000)
        by (nonlinear_arith)
        requires
            ns < (length + 1) * (length + 1),
    ;
    assert(qq <= 1_002_223) by (nonlinear_arith)
        requires
            qq >= 0,
            length >= 900,
            qq * (length * length) <= 1_000_000 * (length * length) + 2_000_000 * length
                + 1_000_000,
    ;
}

/// The squared norm after normalization stays near one squared unit: never
/// more than seven tenths of a percent short, and (when the input was at
/// least nine tenths of a unit long) at most a quarter percent over.
pub proof fn lemma_normalized_near_unit(v: Vec3)
    requires
        in_bounds(v, COORD_LIMIT as int),
        norm_sq_spec(v) >= 1,
    ensures
        993_998 <= norm_sq_spec(norm_v(v)),
        norm_sq_spec(v) >= 810_000 ==> norm_sq_spec(norm_v(v)) <= 1_002_223,
{
    let ns = norm_sq_spec(v);
    lemma_norm_sq_parts(v);
    lemma_sqrt_floor(ns as nat);
    let length = sqrt_floor(ns as nat) as int;
    if length == 0 {
        assert((0int + 1) * (0int + 1) == 1) by (nonlinear_arith);
        assert(false);
    }
    lemma_normalized_component_bound(v.x as int, ns, length);
    lemma_normalized_component_bound(v.y as int, ns, length);
    lemma_normalized_component_bound(v.z as int, ns, length);
    lemma_normalized_component_brackets(v.x as int, length);
    lemma_normalized_component_brackets(v.y as int, length);
    lemma_normalized_component_brackets(v.z as int, length);
    let qx = iabs(fp_div_spec(v.x as int, length));
    let qy = iabs(fp_div_spec(v.y as int, length));
    let qz = iabs(fp_div_spec(v.z as int, length));
    let n = norm_v(v);
    assert(n.x as int == fp_div_spec(v.x as int, length));
    assert(n.y as int == fp_div_spec(v.y as int, length));
    assert(n.z as int == fp_div_spec(v.z as int, length));
    assert(norm_sq_spec(n) == qx * qx + qy * qy + qz * qz);
    let sx = (v.x as int) * (v.x as int);
    let sy = (v.y as int) * (v.y as int);
    let sz = (v.z as int) * (v.z as int);
    assert(1_000_000 * sx < ((qx + 1) * (qx + 1)) * (length * length)) by (nonlinear_arith)
        requires
            1000 * iabs(v.x as int) < (qx + 1) * length,
            sx == (v.x as int) * (v.x as int),
            qx >= 0,
            length >= 1,
    ;
    assert(1_000_000 * sy < ((qy + 1) * (qy + 1)) * (length * length)) by (nonlinear_arith)
        requires
            1000 * iabs(v.y as int) < (qy + 1) * length,
            sy == (v.y as int) * (v.y as int),
            qy >= 0,
            length >= 1,
    ;
    assert(1_000_000 * sz < ((qz + 1) * (qz + 1)) * (length * length)) by (nonlinear_arith)
        requires
            1000 * iabs(v.z as int) < (qz + 1) * length,
            sz == (v.z as int) * (v.z as int),
            qz >= 0,
            length >= 1,
    ;
    assert(length * length >= 1) by (nonlinear_arith)
        requires
            length >= 1,
    ;
    lemma_near_unit_lower(sx, sy, sz, qx, qy, qz, length * length);
    assert(qx + qy + qz <= 3000);
    // Upper bound, for inputs at least nine tenths of a unit long.
    if ns >= 810_000 {
        assert(length >= 900) by (nonlinear_arith)
            requires
                ns < (length + 1) * (length + 1),
                ns >= 810_000,
                length >= 1,
        ;
        assert((qx * qx) * (length * length) <= 1_000_000 * sx) by (nonlinear_arith)
            requires
                qx * length <= 1000 * iabs(v.x as int),
                sx == (v.x as int) * (v.x as int),
                qx >= 0,
                length >= 1,
        ;
        assert((qy * qy) * (length * length) <= 1_000_000 * sy) by (nonlinear_arith)
            requires
                qy * length <= 1000 * iabs(v.y as int),
                sy == (v.y as int) * (v.y as int),
                qy >= 0,
                length >= 1,
        ;
        assert((qz * qz) * (length * length) <= 1_000_000 * sz) by (nonlinear_arith)
            requires
                qz * length <= 1000 * iabs(v.z as int),
                sz == (v.z as int) * (v.z as int),
                qz >= 0,
                length >= 1,
        ;
        lemma_distribute3(qx * qx, qy * qy, qz * qz, length * length);
        lemma_near_unit_upper(qx * qx + qy * qy + qz * qz, length, ns);
    }
}

/// A vector with any component of at least one has a squared norm of at
/// least one.
pub proof fn lemma_some_component_unit(v: Vec3)
    requires
        iabs(v.x as int) >= 1 || iabs(v.y as int) >= 1 || iabs(v.z as int) >= 1,
    ensures
        norm_sq_spec(v) >= 1,
{
    assert(v.x * v.x + v.y * v.y + v.z * v.z >= 1) by (nonlinear_arith)
        requires
            iabs(v.x as int) >= 1 || iabs(v.y as int) >= 1 || iabs(v.z as int) >= 1,
    ;
}

/// A sum of squares is non-negative, and bounds each of its squares.
pub proof fn lemma_norm_sq_parts(v: Vec3)
    ensures
        norm_sq_spec(v) >= 0,
        (v.x as int) * (v.x as int) <= norm_sq_spec(v),
        (v.y as int) * (v.y as int) <= norm_sq_spec(v),
        (v.z as int) * (v.z as int) <= norm_sq_spec(v),
{
    assert(v.x * v.x >= 0) by (nonlinear_arith);
    assert(v.y * v.y >= 0) by (nonlinear_arith);
    assert(v.z * v.z >= 0) by (nonlinear_arith);
}

impl Vec3 {
    pub fn new(x: i64, y: i64, z: i64) -> (r: Vec3)
        ensures
            r == (Vec3 { x, y, z }),
    {
        Vec3 { x, y, z }
    }

    pub fn zero() -> (r: Vec3)
        ensures
            r == (Vec3 { x: 0i64, y: 0i64, z: 0i64 }),
    {
        Vec3 { x: 0, y: 0, z: 0 }
    }

    pub fn add(self, other: Vec3) -> (r: Vec3)
        requires
            iabs(self.x + other.x) <= 0x7fff_ffff_ffff_ffff,
            iabs(self.y + other.y) <= 0x7fff_ffff_ffff_ffff,
            iabs(self.z + other.z) <= 0x7fff_ffff_ffff_ffff,
        ensures
            r.x as int == self.x + other.x,
            r.y as int == self.y + other.y,
            r.z as int == self.z + other.z,
    {
        Vec3 { x: self.x + other.x, y: self.y + other.y, z: self.z + other.z }
    }

    pub fn sub(self, other: Vec3) -> (r: Vec3)
        requires
            iabs(self.x - other.x) <= 0x7fff_ffff_ffff_ffff,
            iabs(self.y - other.y) <= 0x7fff_ffff_ffff_ffff,
            iabs(self.z - other.z) <= 0x7fff_ffff_ffff_ffff,
        ensures
            r.x as int == self.x - other.x,
            r.y as int == self.y - other.y,
            r.z as int == self.z - other.z,
    {
        Vec3 { x: self.x - other.x, y: self.y - other.y, z: self.z - other.z }
    }

    /// Fixed-point scaling of every component by the scalar `s`.
    pub fn scaled(self, s: i64) -> (r: Vec3)
        requires
            iabs(self.x * s) <= 1000 * 0x7fff_ffff_ffff_ffff,
            iabs(self.y * s) <= 1000 * 0x7fff_ffff_ffff_ffff,
            iabs(self.z * s) <= 1000 * 0x7fff_ffff_ffff_ffff,
        ensures
            r.x as int == crate::fixed::fp_mul_spec(self.x as int, s as int),
            r.y as int == crate::fixed::fp_mul_spec(self.y as int, s as int),
            r.z as int == crate::fixed::fp_mul_spec(self.z as int, s as int),
    {
        Vec3 {
            x: crate::fixed::fp_mul(self.x, s),
            y: crate::fixed::fp_mul(self.y, s),
            z: crate::fixed::fp_mul(self.z, s),
        }
    }

    pub fn dot(self, other: Vec3) -> (r: i64)
        requires
            in_bounds(self, COORD_LIMIT as int),
            in_bounds(other, COORD_LIMIT as int),
        ensures
            r as int == dot_spec(self, other),
    {
        proof {
            lemma_mul_bound(self.x as int, other.x as int, COORD_LIMIT as int, COORD_LIMIT as int);
            lemma_mul_bound(self.y as int, other.y as int, COORD_LIMIT as int, COORD_LIMIT as int);
            lemma_mul_bound(self.z as int, other.z as int, COORD_LIMIT as int, COORD_LIMIT as int);
        }
        self.x * other.x + self.y * other.y + self.z * other.z
    }

    pub fn cross(self, other: Vec3) -> (r: Vec3)
        requires
            in_bounds(self, COORD_LIMIT as int),
            in_bounds(other, COORD_LIMIT as int),
        ensures
            r.x as int == cross_x_spec(self, other),
            r.y as int == cross_y_spec(self, other),
            r.z as int == cross_z_spec(self, other),
    {
        proof {
            lemma_mul_bound(self.y as int, other.z as int, COORD_LIMIT as int, COORD_LIMIT as int);
            lemma_mul_bound(self.z as int, other.y as int, COORD_LIMIT as int, COORD_LIMIT as int);
            lemma_mul_bound(self.z as int, other.x as int, COORD_LIMIT as int, COORD_LIMIT as int);
            lemma_mul_bound(self.x as int, other.z as int, COORD_LIMIT as int, COORD_LIMIT as int);
            lemma_mul_bound(self.x as int, other.y as int, COORD_LIMIT as int, COORD_LIMIT as int);
            lemma_mul_bound(self.y as int, other.x as int, COORD_LIMIT as int, COORD_LIMIT as int);
        }
        Vec3 {
            x: self.y * other.z - self.z * other.y,
            y: self.z * other.x - self.x * other.z,
            z: self.x * other.y - self.y * other.x,
        }
    }

    /// Cross product rescaled back to unit scale, for unit-scale operands.
    pub fn cross_scaled(self, other: Vec3) -> (r: Vec3)
        requires
            in_bounds(self, COORD_LIMIT as int),
            in_bounds(other, COORD_LIMIT as int),
        ensures
            r.x as int == div_to_zero(cross_x_spec(self, other), SCALE as int),
            r.y as int == div_to_zero(cross_y_spec(self, other), SCALE as int),
            r.z as int == div_to_zero(cross_z_spec(self, other), SCALE as int),
    {
        let c = self.cross(other);
        Vec3 { x: scale_down(c.x), y: scale_down(c.y), z: scale_down(c.z) }
    }

    /// Dot product rescaled to unit scale, for a unit-scale vector against a
    /// point.
    pub fn dot_scaled(self, other: Vec3) -> (r: i64)
        requires
            in_bounds(self, COORD_LIMIT as int),
            in_bounds(other, COORD_LIMIT as int),
        ensures
            r as int == dot_scaled_spec(self, other),
    {
        let d = self.dot(other);
        scale_down(d)
    }

    /// Rescale to a unit direction (norm close to `SCALE`); the zero vector
    /// stays zero, mirroring the source data's undefined degenerate case.
    pub fn normalized(self) -> (r: Vec3)
        requires
            in_bounds(self, COORD_LIMIT as int),
        ensures
            r.x as int == normalized_x_spec(self),
            r.y as int == normalized_y_spec(self),
            r.z as int == normalized_z_spec(self),
            in_bounds(r, SCALE as int),
    {
        let ns = self.dot(self);
        proof {
            lemma_norm_sq_parts(self);
            assert(ns as u64 as int == ns as int);
        }
        let length = isqrt_u64(ns as u64);
        if length == 0 {
            proof {
                assert((length as int + 1) * (length as int + 1) == 1) by (nonlinear_arith)
                    requires
                        length == 0u64,
                ;
                assert(norm_sq_spec(self) == 0);
            }
            Vec3 { x: 0, y: 0, z: 0 }
        } else {
            proof {
                lemma_sqrt_floor(ns as nat);
                lemma_sqrt_unique(ns as int, length as int, sqrt_floor(ns as nat) as int);
            }
            let r = Vec3 {
                x: fp_div(self.x, length as i64),
                y: fp_div(self.y, length as i64),
                z: fp_div(self.z, length as i64),
            };
            proof {
                lemma_normalized_component_bound(self.x as int, ns as int, length as int);
                lemma_normalized_component_bound(self.y as int, ns as int, length as int);
                lemma_normalized_component_bound(self.z as int, ns as int, length as int);
            }
            r
        }
    }
}

/// A component no longer than the vector's norm divides out to at most
/// `SCALE` after rescaling.
proof fn lemma_normalized_component_bound(c: int, ns: int, length: int)
    requires
        length >= 1,
        c * c <= ns,
        ns < (length + 1) * (length + 1),
    ensures
        iabs(fp_div_spec(c, length)) <= SCALE as int,
{
    assert(iabs(c) <= length) by (nonlinear_arith)
        requires
            length >= 1,
            c * c <= ns,
            ns < (length + 1) * (length + 1),
    ;
    let m = iabs(c) * 1000;
    crate::fixed::lemma_abs_mul(c, 1000);
    assert(iabs(c * 1000) == m);
    assert(m <= length * 1000) by (nonlinear_arith)
        requires
            iabs(c) <= length,
            m == iabs(c) * 1000,
    ;
    vstd::arithmetic::div_mod::lemma_div_is_ordered(m, length * 1000, length);
    vstd::arithmetic::div_mod::lemma_div_multiples_vanish(1000, length);
    assert(m / length <= 1000);
    vstd::arithmetic::div_mod::lemma_div_pos_is_pos(m, length);
}

} // verus!
