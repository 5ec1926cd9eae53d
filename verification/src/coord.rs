//! Integer lattice coordinates.
//!
//! A `Coord` names one unit cell of the voxel lattice. Two coordinates are
//! equal exactly when all three components are equal. The same type also
//! carries face normals (one axis at plus or minus one, the others zero)
//! and the zero vector.

use vstd::prelude::*;

verus! {

/// A position on the integer lattice, or an integer offset such as a face
/// normal.
#[derive(Clone, Copy, PartialEq, Eq, Structural, Hash, Debug)]
pub struct Coord {
    pub x: i64,
    pub y: i64,
    pub z: i64,
}

/// Largest component magnitude accepted where neighbouring cells are formed,
/// so that stepping one cell in any direction cannot overflow.
pub const COORD_LIMIT: i64 = 1_000_000_000_000;

/// All three components lie within `lim` of the origin.
pub open spec fn coord_within(c: Coord, lim: int) -> bool {
    -lim <= c.x <= lim && -lim <= c.y <= lim && -lim <= c.z <= lim
}

/// All three components lie within `COORD_LIMIT` of the origin.
pub open spec fn coord_in_range(c: Coord) -> bool {
    coord_within(c, COORD_LIMIT as int)
}

/// The vector is a face normal or the zero vector: components in
/// `-1 ..= 1`.
pub open spec fn face_ok(f: Coord) -> bool {
    -1 <= f.x <= 1 && -1 <= f.y <= 1 && -1 <= f.z <= 1
}

/// The `k`-th axis neighbour of `c`, for `k` in `0..6`, in the fixed order
/// +x, -x, +y, -y, +z, -z.
pub open spec fn axis_neighbor(c: Coord, k: int) -> Coord {
    if k == 0 {
        Coord { x: (c.x + 1) as i64, y: c.y, z: c.z }
    } else if k == 1 {
        Coord { x: (c.x - 1) as i64, y: c.y, z: c.z }
    } else if k == 2 {
        Coord { x: c.x, y: (c.y + 1) as i64, z: c.z }
    } else if k == 3 {
        Coord { x: c.x, y: (c.y - 1) as i64, z: c.z }
    } else if k == 4 {
        Coord { x: c.x, y: c.y, z: (c.z + 1) as i64 }
    } else {
        Coord { x: c.x, y: c.y, z: (c.z - 1) as i64 }
    }
}

impl Coord {
    pub fn new(x: i64, y: i64, z: i64) -> (c: Coord)
        ensures
            c == (Coord { x, y, z }),
    {
        Coord { x, y, z }
    }

    /// The `k`-th of the six axis neighbours, in the order +x, -x, +y, -y,
    /// +z, -z.
    pub fn neighbor(self, k: u8) -> (r: Coord)
        requires
            k < 6,
            coord_within(self, COORD_LIMIT + 1),
        ensures
            r == axis_neighbor(self, k as int),
    {
        if k == 0 {
            Coord { x: self.x + 1, y: self.y, z: self.z }
        } else if k == 1 {
            Coord { x: self.x - 1, y: self.y, z: self.z }
        } else if k == 2 {
            Coord { x: self.x, y: self.y + 1, z: self.z }
        } else if k == 3 {
            Coord { x: self.x, y: self.y - 1, z: self.z }
        } else if k == 4 {
            Coord { x: self.x, y: self.y, z: self.z + 1 }
        } else {
            Coord { x: self.x, y: self.y, z: self.z - 1 }
        }
    }

    /// Componentwise sum, used to step from a hit block to the cell in front
    /// of the struck face.
    pub fn offset(self, d: Coord) -> (r: Coord)
        requires
            coord_in_range(self),
            coord_in_range(d),
        ensures
            r == (Coord {
                x: (self.x + d.x) as i64,
                y: (self.y + d.y) as i64,
                z: (self.z + d.z) as i64,
            }),
    {
        Coord { x: self.x + d.x, y: self.y + d.y, z: self.z + d.z }
    }
}

} // verus!
