//! Points and axis-aligned bounding boxes on the horizontal plane.

use vstd::prelude::*;

verus! {

/// A point of the horizontal plane: `x` runs across the playfield, `z` into
/// its depth.
#[derive(Clone, Copy, Debug, PartialEq, Eq, Structural)]
pub struct Position {
    pub x: i64,
    pub z: i64,
}

/// The value of the coordinate type that lies nearest to `v`.
pub open spec fn saturate(v: int) -> i64 {
    if v < i64::MIN {
        i64::MIN
    } else if v > i64::MAX {
        i64::MAX
    } else {
        v as i64
    }
}

/// `v` moved into the closed interval from `lo` to `hi`.
pub open spec fn clamp(v: int, lo: int, hi: int) -> int {
    if v < lo {
        lo
    } else if v > hi {
        hi
    } else {
        v
    }
}

/// Computes [`saturate`].
pub fn saturate_exec(v: i128) -> (r: i64)
    ensures
        r == saturate(v as int),
{
    if v < i64::MIN as i128 {
        i64::MIN
    } else if v > i64::MAX as i128 {
        i64::MAX
    } else {
        v as i64
    }
}

impl Position {
    /// The point with these coordinates.
    pub fn new(x: i64, z: i64) -> (p: Position)
        ensures
            p == (Position { x, z }),
    {
        Position { x, z }
    }
}

/// An axis-aligned box, given by its centre and half of its size along
/// each axis. The box is closed: it contains its border.
#[derive(Clone, Copy, Debug, PartialEq, Eq, Structural)]
pub struct Aabb2d {
    pub center: Position,
    pub half_width: u32,
    pub half_depth: u32,
}

impl Aabb2d {
    /// The smallest `x` of the box.
    pub open spec fn min_x(self) -> int {
        self.center.x - self.half_width
    }

    /// The largest `x` of the box.
    pub open spec fn max_x(self) -> int {
        self.center.x + self.half_width
    }

    /// The smallest `z` of the box.
    pub open spec fn min_z(self) -> int {
        self.center.z - self.half_depth
    }

    /// The largest `z` of the box.
    pub open spec fn max_z(self) -> int {
        self.center.z + self.half_depth
    }

    /// The point `(x, z)` lies in the box or on its border.
    pub open spec fn contains(self, x: int, z: int) -> bool {
        self.min_x() <= x <= self.max_x() && self.min_z() <= z <= self.max_z()
    }

    /// The closed intervals that the two boxes cover overlap on both axes.
    pub open spec fn overlaps(self, other: Aabb2d) -> bool {
        &&& self.min_x() <= other.max_x()
        &&& self.max_x() >= other.min_x()
        &&& self.min_z() <= other.max_z()
        &&& self.max_z() >= other.min_z()
    }

    /// The box around `center` that reaches `half_width` to either side and
    /// `half_depth` to the front and to the back.
    pub fn new(center: Position, half_width: u32, half_depth: u32) -> (b: Aabb2d)
        ensures
            b == (Aabb2d { center, half_width, half_depth }),
            b.min_x() == center.x - half_width,
            b.max_x() == center.x + half_width,
            b.min_z() == center.z - half_depth,
            b.max_z() == center.z + half_depth,
    {
        Aabb2d { center, half_width, half_depth }
    }

    /// Whether the two boxes intersect. Boxes that only touch do intersect.
    pub fn intersects(&self, other: &Aabb2d) -> (r: bool)
        ensures
            r == self.overlaps(*other),
    {
        let ax: i128 = self.center.x as i128;
        let az: i128 = self.center.z as i128;
        let bx: i128 = other.center.x as i128;
        let bz: i128 = other.center.z as i128;
        let aw: i128 = self.half_width as i128;
        let ad: i128 = self.half_depth as i128;
        let bw: i128 = other.half_width as i128;
        let bd: i128 = other.half_depth as i128;
        let x_overlaps = ax - aw <= bx + bw && ax + aw >= bx - bw;
        let z_overlaps = az - ad <= bz + bd && az + ad >= bz - bd;
        x_overlaps && z_overlaps
    }
}

/// Two boxes overlap exactly when they have a point in common.
pub proof fn lemma_overlaps_iff_common_point(a: Aabb2d, b: Aabb2d)
    ensures
        a.overlaps(b) <==> exists|x: int, z: int| #[trigger] a.contains(x, z) && b.contains(x, z),
{
    if a.overlaps(b) {
        let x = if a.min_x() >= b.min_x() { a.min_x() } else { b.min_x() };
        let z = if a.min_z() >= b.min_z() { a.min_z() } else { b.min_z() };
        assert(a.contains(x, z) && b.contains(x, z));
    }
}

/// Overlap does not depend on the order of the two boxes.
pub proof fn lemma_overlaps_symmetric(a: Aabb2d, b: Aabb2d)
    ensures
        a.overlaps(b) == b.overlaps(a),
{
}

} // verus!
