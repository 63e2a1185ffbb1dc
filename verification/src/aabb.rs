//! Axis-aligned bounding boxes over fixed-point coordinates.
//!
//! A box is two corner points; its size is the component-wise difference
//! `max - min`. A well-formed box has `min <= max` on every axis, so all
//! three extents are nonnegative; a degenerate box has zero extent on some
//! or all axes.

use vstd::prelude::*;

verus! {

/// A point in three-dimensional space, in nanos per axis.
#[derive(Clone, Copy, PartialEq, Eq, Structural, Debug)]
pub struct Point3 {
    pub x: i64,
    pub y: i64,
    pub z: i64,
}

impl Point3 {
    /// The origin.
    pub fn origin() -> (p: Point3)
        ensures
            p == (Point3 { x: 0, y: 0, z: 0 }),
    {
        Point3 { x: 0, y: 0, z: 0 }
    }
}

/// An axis-aligned bounding box: the smallest box, aligned to the coordinate
/// axes, containing a model.
#[derive(Clone, Copy, PartialEq, Eq, Structural, Debug)]
pub struct Aabb {
    pub min: Point3,
    pub max: Point3,
}

impl Aabb {
    /// Extent of the box along the x axis.
    pub open spec fn extent_x(self) -> int {
        self.max.x - self.min.x
    }

    /// Extent of the box along the y axis.
    pub open spec fn extent_y(self) -> int {
        self.max.y - self.min.y
    }

    /// Extent of the box along the z axis.
    pub open spec fn extent_z(self) -> int {
        self.max.z - self.min.z
    }

    /// A well-formed box: `min` at or below `max` on every axis, with each
    /// extent small enough to be representable.
    pub open spec fn wf(self) -> bool {
        &&& self.min.x <= self.max.x
        &&& self.min.y <= self.max.y
        &&& self.min.z <= self.max.z
        &&& self.extent_x() <= i64::MAX
        &&& self.extent_y() <= i64::MAX
        &&& self.extent_z() <= i64::MAX
    }

    /// Does some axis have a strictly positive extent?
    pub open spec fn has_positive_extent(self) -> bool {
        self.extent_x() > 0 || self.extent_y() > 0 || self.extent_z() > 0
    }

    /// The minimum strictly positive extent across the three axes; at most 0
    /// when no axis has a positive extent.
    pub open spec fn min_positive_extent(self) -> int {
        pos_min(self.extent_x(), pos_min(self.extent_y(), self.extent_z()))
    }

    /// Whether this box is well-formed.
    pub fn is_well_formed(&self) -> (r: bool)
        ensures
            r == self.wf(),
    {
        self.min.x <= self.max.x && self.min.y <= self.max.y && self.min.z <= self.max.z
            && self.max.x.checked_sub(self.min.x).is_some()
            && self.max.y.checked_sub(self.min.y).is_some()
            && self.max.z.checked_sub(self.min.z).is_some()
    }

    /// The degenerate box: a single point at the origin, zero size on every
    /// axis. Stands in for the bounds of a model that cannot report any.
    pub fn degenerate() -> (b: Aabb)
        ensures
            b.wf(),
            !b.has_positive_extent(),
    {
        Aabb { min: Point3::origin(), max: Point3::origin() }
    }

    /// The size of the box: one extent per axis.
    pub fn size(&self) -> (s: [i64; 3])
        requires
            self.wf(),
        ensures
            s[0] == self.extent_x(),
            s[1] == self.extent_y(),
            s[2] == self.extent_z(),
    {
        [self.max.x - self.min.x, self.max.y - self.min.y, self.max.z - self.min.z]
    }
}

/// The minimum of two extents where only strictly positive values count;
/// whenever one side is not positive, the other side is the answer.
pub open spec fn pos_min(a: int, b: int) -> int {
    if a <= 0 {
        b
    } else if b <= 0 {
        a
    } else if a <= b {
        a
    } else {
        b
    }
}

/// A box has a strictly positive minimum positive extent exactly when some
/// axis has a strictly positive extent.
pub proof fn lemma_min_positive_extent(b: Aabb)
    ensures
        b.has_positive_extent() <==> b.min_positive_extent() > 0,
        b.has_positive_extent() ==> b.min_positive_extent() == b.extent_x()
            || b.min_positive_extent() == b.extent_y() || b.min_positive_extent()
            == b.extent_z(),
        b.extent_x() > 0 ==> b.min_positive_extent() <= b.extent_x(),
        b.extent_y() > 0 ==> b.min_positive_extent() <= b.extent_y(),
        b.extent_z() > 0 ==> b.min_positive_extent() <= b.extent_z(),
{
}

} // verus!
