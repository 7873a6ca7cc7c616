//! Fixed-point 4x4 transform matrices, stored as four columns.
//!
//! Entries carry the same thousandth scale as every other scalar, so the
//! identity has `1000` on its diagonal.  Products rescale once per entry,
//! rounding toward zero.

use vstd::prelude::*;

use crate::fixed::{
    div_to_zero, fp_div, fp_div_spec, fp_mul, fp_mul_spec, iabs, scale_down_wide, SCALE,
};
use crate::trig::{cos_spec, sin_spec};
use crate::vec3::{
    cross_unit_v, cross_v, dot_scaled_spec, in_bounds, norm_v, sub_v, Vec3,
};

verus! {

/// Largest entry magnitude accepted by the matrix product below.
pub const ENTRY_LIMIT: i64 = 40_000_000_000;

#[derive(Clone, Copy, Debug, PartialEq, Eq, Structural)]
pub struct Vec4 {
    pub x: i64,
    pub y: i64,
    pub z: i64,
    pub w: i64,
}

/// A matrix as its four columns, in the usual graphics convention: `w` is
/// the translation column.
#[derive(Clone, Copy, Debug, PartialEq, Eq, Structural)]
pub struct Mat4 {
    pub x: Vec4,
    pub y: Vec4,
    pub z: Vec4,
    pub w: Vec4,
}

pub open spec fn v4_in_bounds(v: Vec4, limit: int) -> bool {
    iabs(v.x as int) <= limit && iabs(v.y as int) <= limit && iabs(v.z as int) <= limit && iabs(
        v.w as int,
    ) <= limit
}

pub open spec fn m_in_bounds(m: Mat4, limit: int) -> bool {
    v4_in_bounds(m.x, limit) && v4_in_bounds(m.y, limit) && v4_in_bounds(m.z, limit)
        && v4_in_bounds(m.w, limit)
}

pub open spec fn row_x(m: Mat4) -> Vec4 {
    Vec4 { x: m.x.x, y: m.y.x, z: m.z.x, w: m.w.x }
}

pub open spec fn row_y(m: Mat4) -> Vec4 {
    Vec4 { x: m.x.y, y: m.y.y, z: m.z.y, w: m.w.y }
}

pub open spec fn row_z(m: Mat4) -> Vec4 {
    Vec4 { x: m.x.z, y: m.y.z, z: m.z.z, w: m.w.z }
}

pub open spec fn row_w(m: Mat4) -> Vec4 {
    Vec4 { x: m.x.w, y: m.y.w, z: m.z.w, w: m.w.w }
}

/// One entry of a matrix product: a row against a column, rescaled.
pub open spec fn dot4_scaled_spec(p: Vec4, q: Vec4) -> int {
    div_to_zero(p.x * q.x + p.y * q.y + p.z * q.z + p.w * q.w, SCALE as int)
}

pub open spec fn mat_mul_spec(a: Mat4, b: Mat4) -> Mat4 {
    Mat4 {
        x: Vec4 {
            x: dot4_scaled_spec(row_x(a), b.x) as i64,
            y: dot4_scaled_spec(row_y(a), b.x) as i64,
            z: dot4_scaled_spec(row_z(a), b.x) as i64,
            w: dot4_scaled_spec(row_w(a), b.x) as i64,
        },
        y: Vec4 {
            x: dot4_scaled_spec(row_x(a), b.y) as i64,
            y: dot4_scaled_spec(row_y(a), b.y) as i64,
            z: dot4_scaled_spec(row_z(a), b.y) as i64,
            w: dot4_scaled_spec(row_w(a), b.y) as i64,
        },
        z: Vec4 {
            x: dot4_scaled_spec(row_x(a), b.z) as i64,
            y: dot4_scaled_spec(row_y(a), b.z) as i64,
            z: dot4_scaled_spec(row_z(a), b.z) as i64,
            w: dot4_scaled_spec(row_w(a), b.z) as i64,
        },
        w: Vec4 {
            x: dot4_scaled_spec(row_x(a), b.w) as i64,
            y: dot4_scaled_spec(row_y(a), b.w) as i64,
            z: dot4_scaled_spec(row_z(a), b.w) as i64,
            w: dot4_scaled_spec(row_w(a), b.w) as i64,
        },
    }
}

pub open spec fn identity_spec() -> Mat4 {
    Mat4 {
        x: Vec4 { x: 1000, y: 0, z: 0, w: 0 },
        y: Vec4 { x: 0, y: 1000, z: 0, w: 0 },
        z: Vec4 { x: 0, y: 0, z: 1000, w: 0 },
        w: Vec4 { x: 0, y: 0, z: 0, w: 1000 },
    }
}

pub open spec fn translation_spec(v: Vec3) -> Mat4 {
    Mat4 {
        x: Vec4 { x: 1000, y: 0, z: 0, w: 0 },
        y: Vec4 { x: 0, y: 1000, z: 0, w: 0 },
        z: Vec4 { x: 0, y: 0, z: 1000, w: 0 },
        w: Vec4 { x: v.x, y: v.y, z: v.z, w: 1000 },
    }
}

pub open spec fn nonuniform_scale_spec(v: Vec3) -> Mat4 {
    Mat4 {
        x: Vec4 { x: v.x, y: 0, z: 0, w: 0 },
        y: Vec4 { x: 0, y: v.y, z: 0, w: 0 },
        z: Vec4 { x: 0, y: 0, z: v.z, w: 0 },
        w: Vec4 { x: 0, y: 0, z: 0, w: 1000 },
    }
}

pub open spec fn rotation_x_spec(angle: int) -> Mat4 {
    let c = cos_spec(angle);
    let s = sin_spec(angle);
    Mat4 {
        x: Vec4 { x: 1000, y: 0, z: 0, w: 0 },
        y: Vec4 { x: 0, y: c as i64, z: s as i64, w: 0 },
        z: Vec4 { x: 0, y: (-s) as i64, z: c as i64, w: 0 },
        w: Vec4 { x: 0, y: 0, z: 0, w: 1000 },
    }
}

pub open spec fn rotation_y_spec(angle: int) -> Mat4 {
    let c = cos_spec(angle);
    let s = sin_spec(angle);
    Mat4 {
        x: Vec4 { x: c as i64, y: 0, z: (-s) as i64, w: 0 },
        y: Vec4 { x: 0, y: 1000, z: 0, w: 0 },
        z: Vec4 { x: s as i64, y: 0, z: c as i64, w: 0 },
        w: Vec4 { x: 0, y: 0, z: 0, w: 1000 },
    }
}

pub open spec fn rotation_z_spec(angle: int) -> Mat4 {
    let c = cos_spec(angle);
    let s = sin_spec(angle);
    Mat4 {
        x: Vec4 { x: c as i64, y: s as i64, z: 0, w: 0 },
        y: Vec4 { x: (-s) as i64, y: c as i64, z: 0, w: 0 },
        z: Vec4 { x: 0, y: 0, z: 1000, w: 0 },
        w: Vec4 { x: 0, y: 0, z: 0, w: 1000 },
    }
}

/// A matrix with its translation column zeroed.
pub open spec fn without_translation_spec(m: Mat4) -> Mat4 {
    Mat4 { x: m.x, y: m.y, z: m.z, w: Vec4 { x: 0i64, y: 0i64, z: 0i64, w: m.w.w } }
}

/// The right-handed look-at matrix of a camera at `eye` facing `at`, with
/// `up` as the vertical reference.
pub open spec fn look_at_spec(eye: Vec3, at: Vec3, up: Vec3) -> Mat4 {
    let f = norm_v(sub_v(at, eye));
    let s = norm_v(cross_v(f, up));
    let u = cross_unit_v(s, f);
    Mat4 {
        x: Vec4 { x: s.x, y: u.x, z: (-(f.x as int)) as i64, w: 0 },
        y: Vec4 { x: s.y, y: u.y, z: (-(f.y as int)) as i64, w: 0 },
        z: Vec4 { x: s.z, y: u.z, z: (-(f.z as int)) as i64, w: 0 },
        w: Vec4 {
            x: (-dot_scaled_spec(s, eye)) as i64,
            y: (-dot_scaled_spec(u, eye)) as i64,
            z: dot_scaled_spec(f, eye) as i64,
            w: 1000,
        },
    }
}

/// The perspective projection of a vertical field of view (thousandths of a
/// degree), a width-over-height aspect ratio and two clip planes.
pub open spec fn perspective_spec(fov_y: int, aspect: int, z_near: int, z_far: int) -> Mat4 {
    let cot = fp_div_spec(cos_spec(fov_y / 2), sin_spec(fov_y / 2));
    Mat4 {
        x: Vec4 { x: fp_div_spec(cot, aspect) as i64, y: 0, z: 0, w: 0 },
        y: Vec4 { x: 0, y: cot as i64, z: 0, w: 0 },
        z: Vec4 {
            x: 0,
            y: 0,
            z: (-fp_div_spec(z_far + z_near, z_far - z_near)) as i64,
            w: -1000i64,
        },
        w: Vec4 {
            x: 0,
            y: 0,
            z: (-fp_div_spec(2 * fp_mul_spec(z_far, z_near), z_far - z_near)) as i64,
            w: 0,
        },
    }
}

/// An entry of a product of matrices within `ENTRY_LIMIT` stays well inside
/// the representable range.
proof fn lemma_entry_fits(p: Vec4, q: Vec4)
    requires
        v4_in_bounds(p, ENTRY_LIMIT as int),
        v4_in_bounds(q, ENTRY_LIMIT as int),
    ensures
        iabs(p.x * q.x) <= 1_600_000_000_000_000_000_000,
        iabs(p.y * q.y) <= 1_600_000_000_000_000_000_000,
        iabs(p.z * q.z) <= 1_600_000_000_000_000_000_000,
        iabs(p.w * q.w) <= 1_600_000_000_000_000_000_000,
        iabs(
            p.x * q.x + p.y * q.y + p.z * q.z + p.w * q.w,
        ) <= 6_400_000_000_000_000_000_000,
        iabs(dot4_scaled_spec(p, q)) <= 6_400_000_000_000_000_000,
{
    crate::vec3::lemma_mul_bound(p.x as int, q.x as int, ENTRY_LIMIT as int, ENTRY_LIMIT as int);
    crate::vec3::lemma_mul_bound(p.y as int, q.y as int, ENTRY_LIMIT as int, ENTRY_LIMIT as int);
    crate::vec3::lemma_mul_bound(p.z as int, q.z as int, ENTRY_LIMIT as int, ENTRY_LIMIT as int);
    crate::vec3::lemma_mul_bound(p.w as int, q.w as int, ENTRY_LIMIT as int, ENTRY_LIMIT as int);
    assert((ENTRY_LIMIT as int) * (ENTRY_LIMIT as int) == 1_600_000_000_000_000_000_000int)
        by (nonlinear_arith);
    let sum = p.x * q.x + p.y * q.y + p.z * q.z + p.w * q.w;
    assert(6_400_000_000_000_000_000int * 1000 == 6_400_000_000_000_000_000_000int)
        by (nonlinear_arith);
    crate::fixed::lemma_div_to_zero_le(sum, 1000, 6_400_000_000_000_000_000);
}

/// One product entry stays within `bound` when the operand entries obey
/// `4 * lp * lq <= bound * 1000`.
proof fn lemma_entry_le(p: Vec4, q: Vec4, lp: int, lq: int, bound: int)
    requires
        v4_in_bounds(p, lp),
        v4_in_bounds(q, lq),
        lp >= 0,
        lq >= 0,
        bound >= 0,
        4 * (lp * lq) <= bound * 1000,
    ensures
        iabs(dot4_scaled_spec(p, q)) <= bound,
{
    crate::vec3::lemma_mul_bound(p.x as int, q.x as int, lp, lq);
    crate::vec3::lemma_mul_bound(p.y as int, q.y as int, lp, lq);
    crate::vec3::lemma_mul_bound(p.z as int, q.z as int, lp, lq);
    crate::vec3::lemma_mul_bound(p.w as int, q.w as int, lp, lq);
    let sum = p.x * q.x + p.y * q.y + p.z * q.z + p.w * q.w;
    crate::fixed::lemma_div_to_zero_le(sum, 1000, bound);
}

/// Entry bounds carry through a matrix product.
pub proof fn lemma_mat_mul_bounded(a: Mat4, b: Mat4, la: int, lb: int, bound: int)
    requires
        m_in_bounds(a, la),
        m_in_bounds(b, lb),
        la >= 0,
        lb >= 0,
        0 <= bound <= 0x7fff_ffff_ffff_ffff,
        4 * (la * lb) <= bound * 1000,
    ensures
        m_in_bounds(mat_mul_spec(a, b), bound),
{
    lemma_entry_le(row_x(a), b.x, la, lb, bound);
    lemma_entry_le(row_y(a), b.x, la, lb, bound);
    lemma_entry_le(row_z(a), b.x, la, lb, bound);
    lemma_entry_le(row_w(a), b.x, la, lb, bound);
    lemma_entry_le(row_x(a), b.y, la, lb, bound);
    lemma_entry_le(row_y(a), b.y, la, lb, bound);
    lemma_entry_le(row_z(a), b.y, la, lb, bound);
    lemma_entry_le(row_w(a), b.y, la, lb, bound);
    lemma_entry_le(row_x(a), b.z, la, lb, bound);
    lemma_entry_le(row_y(a), b.z, la, lb, bound);
    lemma_entry_le(row_z(a), b.z, la, lb, bound);
    lemma_entry_le(row_w(a), b.z, la, lb, bound);
    lemma_entry_le(row_x(a), b.w, la, lb, bound);
    lemma_entry_le(row_y(a), b.w, la, lb, bound);
    lemma_entry_le(row_z(a), b.w, la, lb, bound);
    lemma_entry_le(row_w(a), b.w, la, lb, bound);
}

/// A row against a column, rescaled: one entry of a matrix product.
fn row_col(p: Vec4, q: Vec4) -> (r: i64)
    requires
        v4_in_bounds(p, ENTRY_LIMIT as int),
        v4_in_bounds(q, ENTRY_LIMIT as int),
    ensures
        r as int == dot4_scaled_spec(p, q),
{
    proof {
        lemma_entry_fits(p, q);
    }
    let sum: i128 = (p.x as i128) * (q.x as i128) + (p.y as i128) * (q.y as i128) + (p.z as i128)
        * (q.z as i128) + (p.w as i128) * (q.w as i128);
    scale_down_wide(sum)
}

fn get_row_x(m: &Mat4) -> (r: Vec4)
    ensures
        r == row_x(*m),
{
    Vec4 { x: m.x.x, y: m.y.x, z: m.z.x, w: m.w.x }
}

fn get_row_y(m: &Mat4) -> (r: Vec4)
    ensures
        r == row_y(*m),
{
    Vec4 { x: m.x.y, y: m.y.y, z: m.z.y, w: m.w.y }
}

fn get_row_z(m: &Mat4) -> (r: Vec4)
    ensures
        r == row_z(*m),
{
    Vec4 { x: m.x.z, y: m.y.z, z: m.z.z, w: m.w.z }
}

fn get_row_w(m: &Mat4) -> (r: Vec4)
    ensures
        r == row_w(*m),
{
    Vec4 { x: m.x.w, y: m.y.w, z: m.z.w, w: m.w.w }
}

impl Mat4 {
    pub fn identity() -> (r: Mat4)
        ensures
            r == identity_spec(),
    {
        Mat4 {
            x: Vec4 { x: 1000, y: 0, z: 0, w: 0 },
            y: Vec4 { x: 0, y: 1000, z: 0, w: 0 },
            z: Vec4 { x: 0, y: 0, z: 1000, w: 0 },
            w: Vec4 { x: 0, y: 0, z: 0, w: 1000 },
        }
    }

    pub fn from_translation(v: Vec3) -> (r: Mat4)
        ensures
            r == translation_spec(v),
    {
        Mat4 {
            x: Vec4 { x: 1000, y: 0, z: 0, w: 0 },
            y: Vec4 { x: 0, y: 1000, z: 0, w: 0 },
            z: Vec4 { x: 0, y: 0, z: 1000, w: 0 },
            w: Vec4 { x: v.x, y: v.y, z: v.z, w: 1000 },
        }
    }

    pub fn from_nonuniform_scale(v: Vec3) -> (r: Mat4)
        ensures
            r == nonuniform_scale_spec(v),
    {
        Mat4 {
            x: Vec4 { x: v.x, y: 0, z: 0, w: 0 },
            y: Vec4 { x: 0, y: v.y, z: 0, w: 0 },
            z: Vec4 { x: 0, y: 0, z: v.z, w: 0 },
            w: Vec4 { x: 0, y: 0, z: 0, w: 1000 },
        }
    }

    pub fn from_rotation_x(angle: i64) -> (r: Mat4)
        ensures
            r == rotation_x_spec(angle as int),
            m_in_bounds(r, 1000),
    {
        let c = crate::trig::cos_deg(angle);
        let s = crate::trig::sin_deg(angle);
        Mat4 {
            x: Vec4 { x: 1000, y: 0, z: 0, w: 0 },
            y: Vec4 { x: 0, y: c, z: s, w: 0 },
            z: Vec4 { x: 0, y: -s, z: c, w: 0 },
            w: Vec4 { x: 0, y: 0, z: 0, w: 1000 },
        }
    }

    pub fn from_rotation_y(angle: i64) -> (r: Mat4)
        ensures
            r == rotation_y_spec(angle as int),
            m_in_bounds(r, 1000),
    {
        let c = crate::trig::cos_deg(angle);
        let s = crate::trig::sin_deg(angle);
        Mat4 {
            x: Vec4 { x: c, y: 0, z: -s, w: 0 },
            y: Vec4 { x: 0, y: 1000, z: 0, w: 0 },
            z: Vec4 { x: s, y: 0, z: c, w: 0 },
            w: Vec4 { x: 0, y: 0, z: 0, w: 1000 },
        }
    }

    pub fn from_rotation_z(angle: i64) -> (r: Mat4)
        ensures
            r == rotation_z_spec(angle as int),
            m_in_bounds(r, 1000),
    {
        let c = crate::trig::cos_deg(angle);
        let s = crate::trig::sin_deg(angle);
        Mat4 {
            x: Vec4 { x: c, y: s, z: 0, w: 0 },
            y: Vec4 { x: -s, y: c, z: 0, w: 0 },
            z: Vec4 { x: 0, y: 0, z: 1000, w: 0 },
            w: Vec4 { x: 0, y: 0, z: 0, w: 1000 },
        }
    }

    /// Matrix product, entry by entry.
    pub fn mul(&self, other: &Mat4) -> (r: Mat4)
        requires
            m_in_bounds(*self, ENTRY_LIMIT as int),
            m_in_bounds(*other, ENTRY_LIMIT as int),
        ensures
            r == mat_mul_spec(*self, *other),
    {
        let rx = get_row_x(self);
        let ry = get_row_y(self);
        let rz = get_row_z(self);
        let rw = get_row_w(self);
        proof {
            lemma_entry_fits(row_x(*self), other.x);
            lemma_entry_fits(row_y(*self), other.x);
            lemma_entry_fits(row_z(*self), other.x);
            lemma_entry_fits(row_w(*self), other.x);
            lemma_entry_fits(row_x(*self), other.y);
            lemma_entry_fits(row_y(*self), other.y);
            lemma_entry_fits(row_z(*self), other.y);
            lemma_entry_fits(row_w(*self), other.y);
            lemma_entry_fits(row_x(*self), other.z);
            lemma_entry_fits(row_y(*self), other.z);
            lemma_entry_fits(row_z(*self), other.z);
            lemma_entry_fits(row_w(*self), other.z);
            lemma_entry_fits(row_x(*self), other.w);
            lemma_entry_fits(row_y(*self), other.w);
            lemma_entry_fits(row_z(*self), other.w);
            lemma_entry_fits(row_w(*self), other.w);
        }
        Mat4 {
            x: Vec4 {
                x: row_col(rx, other.x),
                y: row_col(ry, other.x),
                z: row_col(rz, other.x),
                w: row_col(rw, other.x),
            },
            y: Vec4 {
                x: row_col(rx, other.y),
                y: row_col(ry, other.y),
                z: row_col(rz, other.y),
                w: row_col(rw, other.y),
            },
            z: Vec4 {
                x: row_col(rx, other.z),
                y: row_col(ry, other.z),
                z: row_col(rz, other.z),
                w: row_col(rw, other.z),
            },
            w: Vec4 {
                x: row_col(rx, other.w),
                y: row_col(ry, other.w),
                z: row_col(rz, other.w),
                w: row_col(rw, other.w),
            },
        }
    }

    /// The same rotation with the translation column zeroed, so a skybox
    /// turns with the camera but never moves with it.
    pub fn without_translation(&self) -> (r: Mat4)
        ensures
            r == without_translation_spec(*self),
    {
        Mat4 { x: self.x, y: self.y, z: self.z, w: Vec4 { x: 0, y: 0, z: 0, w: self.w.w } }
    }
}

/// Perspective projection for a field of view between one and ninety
/// degrees (the camera's zoom clamp keeps it there) and ordered positive
/// clip planes.
pub fn perspective(fov_y: i64, aspect: i64, z_near: i64, z_far: i64) -> (r: Mat4)
    requires
        1000 <= fov_y <= 90_000,
        1 <= aspect,
        0 < z_near < z_far <= 1_000_000_000,
    ensures
        r == perspective_spec(fov_y as int, aspect as int, z_near as int, z_far as int),
{
    let half: i64 = ((fov_y as u64) / 2) as i64;
    proof {
        assert(half as int == (fov_y as int) / 2);
        vstd::arithmetic::div_mod::lemma_div_is_ordered(1000, fov_y as int, 2);
        vstd::arithmetic::div_mod::lemma_div_is_ordered(fov_y as int, 90_000, 2);
        vstd::arithmetic::div_mod::lemma_div_multiples_vanish(500, 2);
        vstd::arithmetic::div_mod::lemma_div_multiples_vanish(45_000, 2);
        assert(500 <= half as int <= 45_000);
    }
    let sv = crate::trig::sin_deg(half);
    let cv = crate::trig::cos_deg(half);
    proof {
        crate::trig::lemma_sin_positive(half as int);
    }
    let cot = fp_div(cv, sv);
    proof {
        crate::fixed::lemma_abs_mul(cv as int, 1000);
        crate::fixed::lemma_div_to_zero_le(cv as int * 1000, sv as int, 1_000_000);
        assert(iabs(cot as int) <= 1_000_000);
    }
    let m00 = fp_div(cot, aspect);
    let diff = z_far - z_near;
    let sum = z_far + z_near;
    let q1 = fp_div(sum, diff);
    proof {
        crate::fixed::lemma_abs_mul(sum as int, 1000);
        crate::fixed::lemma_div_to_zero_bound(sum as int * 1000, diff as int);
    }
    proof {
        crate::vec3::lemma_mul_bound(
            z_far as int,
            z_near as int,
            1_000_000_000,
            1_000_000_000,
        );
        assert(1_000_000_000int * 1_000_000_000int == 1_000_000_000_000_000_000int)
            by (nonlinear_arith);
        assert(1000int * 0x7fff_ffff_ffff_ffffint == 9_223_372_036_854_775_807_000int)
            by (nonlinear_arith);
        assert(1_000_000_000_000_000int * 1000 == 1_000_000_000_000_000_000int)
            by (nonlinear_arith);
        crate::fixed::lemma_div_to_zero_le(
            z_far as int * z_near as int,
            1000,
            1_000_000_000_000_000,
        );
    }
    let fm = fp_mul(z_far, z_near);
    let fm2 = 2 * fm;
    let q2 = fp_div(fm2, diff);
    proof {
        crate::fixed::lemma_abs_mul(fm2 as int, 1000);
        crate::fixed::lemma_div_to_zero_bound(fm2 as int * 1000, diff as int);
    }
    Mat4 {
        x: Vec4 { x: m00, y: 0, z: 0, w: 0 },
        y: Vec4 { x: 0, y: cot, z: 0, w: 0 },
        z: Vec4 { x: 0, y: 0, z: -q1, w: -1000 },
        w: Vec4 { x: 0, y: 0, z: -q2, w: 0 },
    }
}

/// The right-handed look-at matrix, built from the camera basis.
pub fn look_at(eye: Vec3, at: Vec3, up: Vec3) -> (r: Mat4)
    requires
        in_bounds(eye, 499_999_000),
        in_bounds(at, 500_000_000),
        in_bounds(up, 500_000),
    ensures
        r == look_at_spec(eye, at, up),
{
    let f = at.sub(eye).normalized();
    let c = f.cross(up);
    proof {
        assert(f == norm_v(sub_v(at, eye)));
        crate::vec3::lemma_mul_bound(f.y as int, up.z as int, 1000, 500_000);
        crate::vec3::lemma_mul_bound(f.z as int, up.y as int, 1000, 500_000);
        crate::vec3::lemma_mul_bound(f.z as int, up.x as int, 1000, 500_000);
        crate::vec3::lemma_mul_bound(f.x as int, up.z as int, 1000, 500_000);
        crate::vec3::lemma_mul_bound(f.x as int, up.y as int, 1000, 500_000);
        crate::vec3::lemma_mul_bound(f.y as int, up.x as int, 1000, 500_000);
    }
    let s = c.normalized();
    let u = s.cross_scaled(f);
    proof {
        assert(c == cross_v(f, up));
        assert(s == norm_v(cross_v(norm_v(sub_v(at, eye)), up)));
        assert(u == cross_unit_v(s, f));
        crate::fixed::lemma_div_to_zero_bound(crate::vec3::cross_x_spec(s, f), 1000);
        crate::fixed::lemma_div_to_zero_bound(crate::vec3::cross_y_spec(s, f), 1000);
        crate::fixed::lemma_div_to_zero_bound(crate::vec3::cross_z_spec(s, f), 1000);
        crate::vec3::lemma_mul_bound(s.y as int, f.z as int, 1000, 1000);
        crate::vec3::lemma_mul_bound(s.z as int, f.y as int, 1000, 1000);
        crate::vec3::lemma_mul_bound(s.z as int, f.x as int, 1000, 1000);
        crate::vec3::lemma_mul_bound(s.x as int, f.z as int, 1000, 1000);
        crate::vec3::lemma_mul_bound(s.x as int, f.y as int, 1000, 1000);
        crate::vec3::lemma_mul_bound(s.y as int, f.x as int, 1000, 1000);
        assert(1000int * 1000int == 1_000_000int) by (nonlinear_arith);
        assert(in_bounds(u, 2_000_000));
    }
    let tx = s.dot_scaled(eye);
    let ty = u.dot_scaled(eye);
    let tz = f.dot_scaled(eye);
    proof {
        crate::vec3::lemma_dot_scaled_bound(s, eye, 1000, 500_000_000);
        crate::vec3::lemma_dot_scaled_bound(u, eye, 2_000_000, 500_000_000);
        crate::vec3::lemma_dot_scaled_bound(f, eye, 1000, 500_000_000);
        assert(1000int * 500_000_000int == 500_000_000_000int) by (nonlinear_arith);
        assert(2_000_000int * 500_000_000int == 1_000_000_000_000_000int) by (nonlinear_arith);
    }
    Mat4 {
        x: Vec4 { x: s.x, y: u.x, z: -f.x, w: 0 },
        y: Vec4 { x: s.y, y: u.y, z: -f.y, w: 0 },
        z: Vec4 { x: s.z, y: u.z, z: -f.z, w: 0 },
        w: Vec4 { x: -tx, y: -ty, z: tz, w: 1000 },
    }
}

} // verus!
