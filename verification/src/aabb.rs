//! Axis-aligned bounding boxes with inclusive overlap tests.

use vstd::prelude::*;

verus! {

/// Six fixed-point bounds, `min <= max` per axis once built from a
/// half-extent (the type itself does not heal inverted bounds).
#[derive(Clone, Copy, Debug, PartialEq, Eq, Structural, Default)]
pub struct AABBBoundingBox {
    pub x_min: i64,
    pub x_max: i64,
    pub y_min: i64,
    pub y_max: i64,
    pub z_min: i64,
    pub z_max: i64,
}

/// Bounds ordered on every axis.
pub open spec fn box_wf(b: AABBBoundingBox) -> bool {
    b.x_min <= b.x_max && b.y_min <= b.y_max && b.z_min <= b.z_max
}

/// All six bounds within `limit` in magnitude.
pub open spec fn box_in_bounds(b: AABBBoundingBox, limit: int) -> bool {
    &&& crate::fixed::iabs(b.x_min as int) <= limit
    &&& crate::fixed::iabs(b.x_max as int) <= limit
    &&& crate::fixed::iabs(b.y_min as int) <= limit
    &&& crate::fixed::iabs(b.y_max as int) <= limit
    &&& crate::fixed::iabs(b.z_min as int) <= limit
    &&& crate::fixed::iabs(b.z_max as int) <= limit
}

/// The interval pairs of all three axes overlap, boundaries included.
pub open spec fn overlaps(a: AABBBoundingBox, b: AABBBoundingBox) -> bool {
    &&& a.x_min <= b.x_max
    &&& a.x_max >= b.x_min
    &&& a.y_min <= b.y_max
    &&& a.y_max >= b.y_min
    &&& a.z_min <= b.z_max
    &&& a.z_max >= b.z_min
}

impl AABBBoundingBox {
    /// Classic inclusive AABB overlap test.
    pub fn collides_with(&self, other: AABBBoundingBox) -> (r: bool)
        ensures
            r == overlaps(*self, other),
    {
        self.x_min <= other.x_max && self.x_max >= other.x_min && self.y_min <= other.y_max
            && self.y_max >= other.y_min && self.z_min <= other.z_max && self.z_max >= other.z_min
    }
}

/// Overlap does not depend on the order of the two boxes.
pub proof fn lemma_overlap_symmetric(a: AABBBoundingBox, b: AABBBoundingBox)
    ensures
        overlaps(a, b) == overlaps(b, a),
{
}

} // verus!
