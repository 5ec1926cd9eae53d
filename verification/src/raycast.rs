//! Voxel ray traversal (3D DDA).
//!
//! From the cell the origin lies in, the traversal repeatedly advances one
//! cell along the axis whose next lattice boundary is closest in ray
//! parameter, ties going to x before y before z, and returns the first
//! occupied cell together with the face it was entered through. The ray
//! parameter to the next boundary on an axis is the exact rational
//! `num / den`, where `den` is the direction component's magnitude and
//! `num` the fixed-point distance to that boundary; comparisons
//! cross-multiply, so no precision is lost. An axis with zero direction
//! never advances (its boundary is infinitely far); a ray with no
//! direction at all hits nothing.

use crate::block::BlockType;
use crate::collide::vec_within;
use crate::coord::{coord_within, face_ok, Coord};
use crate::fixed::{cell_floor, cell_of, lemma_cell_bounds, Vec3Fix, SCALE};
use crate::store::VoxelStore;
use vstd::prelude::*;

verus! {

/// Largest origin component magnitude (in ticks) the traversal accepts.
pub const RAY_POS_LIMIT: i64 = 2_000_000_000;

/// Largest direction component magnitude (in ticks) the traversal accepts.
pub const RAY_DIR_LIMIT: i64 = 1_000_000;

/// Largest step budget the traversal accepts.
pub const RAY_STEP_LIMIT: u32 = 1_000_000;

/// A block picked by a raycast: the cell hit, and the outward normal of
/// the face the ray entered it through (zero when the ray started inside
/// the block).
#[derive(Clone, Copy, PartialEq, Eq, Structural, Debug)]
pub struct RaycastHit {
    pub coord: Coord,
    pub normal: Coord,
}

/// The step direction for a direction component: positive (or zero)
/// components step up, negative ones step down.
pub open spec fn step_sign(d: int) -> int {
    if d >= 0 {
        1
    } else {
        -1
    }
}

/// Magnitude of a direction component.
pub open spec fn abs_of(d: int) -> int {
    if d >= 0 {
        d
    } else {
        -d
    }
}

/// The traversal cursor: current cell, fixed-point distance `n*` from the
/// origin to the next lattice boundary on each axis (the ray parameter to
/// that boundary is `n / d` for direction magnitude `d`), and the normal
/// of the face through which the current cell was entered.
pub struct DdaCursor {
    pub cx: int,
    pub cy: int,
    pub cz: int,
    pub nx: int,
    pub ny: int,
    pub nz: int,
    pub lnx: int,
    pub lny: int,
    pub lnz: int,
}

impl DdaCursor {
    /// The cell the cursor stands in.
    pub open spec fn coord(self) -> Coord {
        Coord { x: self.cx as i64, y: self.cy as i64, z: self.cz as i64 }
    }

    /// The face normal for a hit in the current cell.
    pub open spec fn face(self) -> Coord {
        Coord { x: self.lnx as i64, y: self.lny as i64, z: self.lnz as i64 }
    }
}

/// Whether the ray parameter `n1 / d1` is at most `n2 / d2`, where a zero
/// denominator stands for an infinitely late boundary.
pub open spec fn t_le(n1: int, d1: int, n2: int, d2: int) -> bool {
    if d1 == 0 {
        d2 == 0
    } else if d2 == 0 {
        true
    } else {
        n1 * d2 <= n2 * d1
    }
}

/// The cursor at the ray origin: the cell containing the origin, the
/// distances to the first boundary in stepping direction on each axis,
/// and no entry face yet.
pub open spec fn dda_init(o: Vec3Fix, d: Vec3Fix) -> DdaCursor {
    let cx = cell_of(o.x as int);
    let cy = cell_of(o.y as int);
    let cz = cell_of(o.z as int);
    DdaCursor {
        cx,
        cy,
        cz,
        nx: if d.x >= 0 {
            (cx + 1) * (SCALE as int) - o.x
        } else {
            o.x - cx * (SCALE as int)
        },
        ny: if d.y >= 0 {
            (cy + 1) * (SCALE as int) - o.y
        } else {
            o.y - cy * (SCALE as int)
        },
        nz: if d.z >= 0 {
            (cz + 1) * (SCALE as int) - o.z
        } else {
            o.z - cz * (SCALE as int)
        },
        lnx: 0,
        lny: 0,
        lnz: 0,
    }
}

/// Advance the cursor one cell along the axis whose next boundary is
/// closest in ray parameter, ties going to x before y before z; crossing
/// a boundary moves that boundary one cell further and records the face
/// entered.
pub open spec fn dda_advance(
    st: DdaCursor,
    sx: int,
    sy: int,
    sz: int,
    dx: int,
    dy: int,
    dz: int,
) -> DdaCursor {
    if t_le(st.nx, dx, st.ny, dy) && t_le(st.nx, dx, st.nz, dz) {
        DdaCursor {
            cx: st.cx + sx,
            nx: st.nx + SCALE,
            lnx: -sx,
            lny: 0,
            lnz: 0,
            ..st
        }
    } else if t_le(st.ny, dy, st.nz, dz) {
        DdaCursor {
            cy: st.cy + sy,
            ny: st.ny + SCALE,
            lnx: 0,
            lny: -sy,
            lnz: 0,
            ..st
        }
    } else {
        DdaCursor {
            cz: st.cz + sz,
            nz: st.nz + SCALE,
            lnx: 0,
            lny: 0,
            lnz: -sz,
            ..st
        }
    }
}

/// Run the traversal for at most `fuel` cell visits: the first visited
/// cell occupied in `m` stops it.
pub open spec fn dda_run(
    m: Map<Coord, BlockType>,
    st: DdaCursor,
    sx: int,
    sy: int,
    sz: int,
    dx: int,
    dy: int,
    dz: int,
    fuel: nat,
) -> Option<DdaCursor>
    decreases fuel,
{
    if fuel == 0 {
        None
    } else if m.dom().contains(st.coord()) {
        Some(st)
    } else {
        dda_run(
            m,
            dda_advance(st, sx, sy, sz, dx, dy, dz),
            sx,
            sy,
            sz,
            dx,
            dy,
            dz,
            (fuel - 1) as nat,
        )
    }
}

/// What a raycast returns: nothing for a ray without direction or an
/// exhausted step budget, else the first occupied cell the traversal
/// visits, with the face it was entered through.
pub open spec fn cast_spec(
    m: Map<Coord, BlockType>,
    o: Vec3Fix,
    d: Vec3Fix,
    max_steps: nat,
) -> Option<RaycastHit> {
    if d.x == 0 && d.y == 0 && d.z == 0 {
        None
    } else {
        match dda_run(
            m,
            dda_init(o, d),
            step_sign(d.x as int),
            step_sign(d.y as int),
            step_sign(d.z as int),
            abs_of(d.x as int),
            abs_of(d.y as int),
            abs_of(d.z as int),
            max_steps,
        ) {
            Some(st) => Some(RaycastHit { coord: st.coord(), normal: st.face() }),
            None => None,
        }
    }
}

/// Exact comparison of the ray parameters `n1 / d1 <= n2 / d2` by
/// cross-multiplication; a zero denominator is an infinitely late
/// boundary.
fn t_le_exec(n1: i64, d1: i64, n2: i64, d2: i64) -> (r: bool)
    requires
        0 <= n1 <= 3_000_000_000,
        0 <= n2 <= 3_000_000_000,
        0 <= d1 <= RAY_DIR_LIMIT,
        0 <= d2 <= RAY_DIR_LIMIT,
    ensures
        r == t_le(n1 as int, d1 as int, n2 as int, d2 as int),
{
    if d1 == 0 {
        d2 == 0
    } else if d2 == 0 {
        true
    } else {
        proof {
            assert(n1 * d2 <= 3_000_000_000 * 1_000_000 && n2 * d1 <= 3_000_000_000 * 1_000_000
                && n1 * d2 >= 0 && n2 * d1 >= 0) by (nonlinear_arith)
                requires
                    0 <= n1 <= 3_000_000_000,
                    0 <= n2 <= 3_000_000_000,
                    0 <= d1 <= 1_000_000,
                    0 <= d2 <= 1_000_000,
            ;
        }
        n1 * d2 <= n2 * d1
    }
}

/// Cast a ray from `origin` along `dir` against the store, visiting at
/// most `max_steps` cells: the first occupied cell visited is returned
/// with the face it was entered through; a ray with no direction, or a
/// budget that runs out, yields no hit.
#[verifier::loop_isolation(false)]
pub fn cast(store: &VoxelStore, origin: Vec3Fix, dir: Vec3Fix, max_steps: u32) -> (r: Option<
    RaycastHit,
>)
    requires
        vec_within(origin, RAY_POS_LIMIT as int),
        vec_within(dir, RAY_DIR_LIMIT as int),
        max_steps <= RAY_STEP_LIMIT,
    ensures
        r == cast_spec(store@, origin, dir, max_steps as nat),
        r matches Some(h) ==> store@.dom().contains(h.coord) && coord_within(
            h.coord,
            RAY_POS_LIMIT as int + RAY_STEP_LIMIT as int + 1,
        ) && face_ok(h.normal),
{
    if dir.x == 0 && dir.y == 0 && dir.z == 0 {
        return None;
    }
    let mut cx = cell_floor(origin.x);
    let mut cy = cell_floor(origin.y);
    let mut cz = cell_floor(origin.z);
    let sx: i64 = if dir.x >= 0 {
        1
    } else {
        -1
    };
    let sy: i64 = if dir.y >= 0 {
        1
    } else {
        -1
    };
    let sz: i64 = if dir.z >= 0 {
        1
    } else {
        -1
    };
    let dx: i64 = if dir.x >= 0 {
        dir.x
    } else {
        -dir.x
    };
    let dy: i64 = if dir.y >= 0 {
        dir.y
    } else {
        -dir.y
    };
    let dz: i64 = if dir.z >= 0 {
        dir.z
    } else {
        -dir.z
    };
    proof {
        lemma_cell_bounds(origin.x as int);
        lemma_cell_bounds(origin.y as int);
        lemma_cell_bounds(origin.z as int);
    }
    let mut nx: i64 = if dir.x >= 0 {
        (cx + 1) * SCALE - origin.x
    } else {
        origin.x - cx * SCALE
    };
    let mut ny: i64 = if dir.y >= 0 {
        (cy + 1) * SCALE - origin.y
    } else {
        origin.y - cy * SCALE
    };
    let mut nz: i64 = if dir.z >= 0 {
        (cz + 1) * SCALE - origin.z
    } else {
        origin.z - cz * SCALE
    };
    let mut lnx: i64 = 0;
    let mut lny: i64 = 0;
    let mut lnz: i64 = 0;
    let ghost st0 = dda_init(origin, dir);
    let ghost gsx = step_sign(dir.x as int);
    let ghost gsy = step_sign(dir.y as int);
    let ghost gsz = step_sign(dir.z as int);
    let ghost gdx = abs_of(dir.x as int);
    let ghost gdy = abs_of(dir.y as int);
    let ghost gdz = abs_of(dir.z as int);
    let ghost mut gst = st0;
    let mut step: u32 = 0;
    while step < max_steps
        invariant
            step <= max_steps,
            gst.cx == cx as int && gst.cy == cy as int && gst.cz == cz as int,
            gst.nx == nx as int && gst.ny == ny as int && gst.nz == nz as int,
            gst.lnx == lnx as int && gst.lny == lny as int && gst.lnz == lnz as int,
            0 <= nx <= SCALE + step * SCALE,
            0 <= ny <= SCALE + step * SCALE,
            0 <= nz <= SCALE + step * SCALE,
            -RAY_POS_LIMIT - 1 - step <= cx <= RAY_POS_LIMIT + 1 + step,
            -RAY_POS_LIMIT - 1 - step <= cy <= RAY_POS_LIMIT + 1 + step,
            -RAY_POS_LIMIT - 1 - step <= cz <= RAY_POS_LIMIT + 1 + step,
            -1 <= lnx <= 1 && -1 <= lny <= 1 && -1 <= lnz <= 1,
            dda_run(store@, st0, gsx, gsy, gsz, gdx, gdy, gdz, max_steps as nat) == dda_run(
                store@,
                gst,
                gsx,
                gsy,
                gsz,
                gdx,
                gdy,
                gdz,
                (max_steps - step) as nat,
            ),
        decreases max_steps - step,
    {
        let cur = Coord { x: cx, y: cy, z: cz };
        proof {
            assert(gst.coord() == cur);
        }
        if store.contains(cur) {
            return Some(RaycastHit { coord: cur, normal: Coord { x: lnx, y: lny, z: lnz } });
        }
        let ghost pre = gst;
        if t_le_exec(nx, dx, ny, dy) && t_le_exec(nx, dx, nz, dz) {
            cx = cx + sx;
            nx = nx + SCALE;
            lnx = -sx;
            lny = 0;
            lnz = 0;
        } else if t_le_exec(ny, dy, nz, dz) {
            cy = cy + sy;
            ny = ny + SCALE;
            lnx = 0;
            lny = -sy;
            lnz = 0;
        } else {
            cz = cz + sz;
            nz = nz + SCALE;
            lnx = 0;
            lny = 0;
            lnz = -sz;
        }
        proof {
            gst = dda_advance(pre, gsx, gsy, gsz, gdx, gdy, gdz);
        }
        step = step + 1;
    }
    None
}

} // verus!
