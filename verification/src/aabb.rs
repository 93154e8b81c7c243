use vstd::prelude::*;

use crate::point::Point3;

verus! {

/// An axis-aligned bounding box, given by its minimum and maximum corner.
///
/// The box is the closed region of points `p` with
/// `min.x <= p.x <= max.x`, `min.y <= p.y <= max.y`, `min.z <= p.z <= max.z`.
/// Construction does not enforce `min <= max`: a box violating it is
/// degenerate, and the overlap test still returns the deterministic
/// separating-axis answer for it (see [`overlaps`]).
#[derive(Clone, Copy, Debug, PartialEq, Eq, Structural)]
pub struct AABB {
    pub min: Point3,
    pub max: Point3,
}

/// The separating-axis overlap criterion for two axis-aligned boxes:
/// on every axis the two extents meet, with touching faces counting
/// as overlap (closed intervals).
///
/// For well-formed boxes this holds exactly when the boxes share a
/// common point ([`lemma_overlap_is_common_point`]).
pub open spec fn overlaps(a: AABB, b: AABB) -> bool {
    &&& a.min.x <= b.max.x && a.max.x >= b.min.x
    &&& a.min.y <= b.max.y && a.max.y >= b.min.y
    &&& a.min.z <= b.max.z && a.max.z >= b.min.z
}

/// A box is well formed when its minimum corner is coordinate-wise
/// at most its maximum corner, so the box holds at least one point.
pub open spec fn well_formed(a: AABB) -> bool {
    a.min.x <= a.max.x && a.min.y <= a.max.y && a.min.z <= a.max.z
}

/// The point `(x, y, z)` lies inside the closed box `a`.
pub open spec fn contains_point(a: AABB, x: int, y: int, z: int) -> bool {
    &&& a.min.x <= x <= a.max.x
    &&& a.min.y <= y <= a.max.y
    &&& a.min.z <= z <= a.max.z
}

/// The point `(x, y, z)` lies in both boxes at once.
pub open spec fn common_point(a: AABB, b: AABB, x: int, y: int, z: int) -> bool {
    contains_point(a, x, y, z) && contains_point(b, x, y, z)
}

impl AABB {
    /// Builds the box with minimum corner `(min_x, min_y, min_z)` and
    /// maximum corner `(max_x, max_y, max_z)`. The six coordinates are
    /// stored verbatim; nothing checks `min <= max`.
    pub fn new(min_x: i32, min_y: i32, min_z: i32, max_x: i32, max_y: i32, max_z: i32) -> (r:
        AABB)
        ensures
            r == (AABB {
                min: Point3 { x: min_x, y: min_y, z: min_z },
                max: Point3 { x: max_x, y: max_y, z: max_z },
            }),
    {
        AABB {
            min: Point3 { x: min_x, y: min_y, z: min_z },
            max: Point3 { x: max_x, y: max_y, z: max_z },
        }
    }

    /// Reports whether the two boxes overlap, by the separating-axis
    /// criterion; faces that merely touch count as overlapping.
    pub fn intersects(&self, other: &AABB) -> (r: bool)
        ensures
            r == overlaps(*self, *other),
    {
        self.min.x <= other.max.x && self.max.x >= other.min.x && self.min.y <= other.max.y
            && self.max.y >= other.min.y && self.min.z <= other.max.z && self.max.z >= other.min.z
    }
}

/// Overlap is symmetric: testing `a` against `b` and `b` against `a`
/// give the same answer.
pub proof fn lemma_overlaps_symmetric(a: AABB, b: AABB)
    ensures
        overlaps(a, b) == overlaps(b, a),
{
}

/// Every well-formed box overlaps itself.
pub proof fn lemma_overlaps_self(a: AABB)
    requires
        well_formed(a),
    ensures
        overlaps(a, a),
{
}

/// For well-formed boxes the separating-axis criterion is exact:
/// two boxes overlap precisely when some point lies in both.
pub proof fn lemma_overlap_is_common_point(a: AABB, b: AABB)
    requires
        well_formed(a),
        well_formed(b),
    ensures
        overlaps(a, b) <==> exists|x: int, y: int, z: int| common_point(a, b, x, y, z),
{
    if overlaps(a, b) {
        let x = if a.min.x >= b.min.x {
            a.min.x as int
        } else {
            b.min.x as int
        };
        let y = if a.min.y >= b.min.y {
            a.min.y as int
        } else {
            b.min.y as int
        };
        let z = if a.min.z >= b.min.z {
            a.min.z as int
        } else {
            b.min.z as int
        };
        assert(common_point(a, b, x, y, z));
    }
}

} // verus!
