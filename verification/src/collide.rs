//! Collision of a box-shaped actor against the voxel lattice.
//!
//! The overlap test asks whether an axis-aligned box intersects any
//! occupied unit cell. The resolver integrates one time step of motion:
//! gravity first, then each axis in the fixed order X, Z, Y, accepting the
//! axis move when the moved box is free and otherwise zeroing that axis'
//! velocity; a downward-rejected Y move grounds the actor and snaps its
//! feet onto the obstructing cell's top face.

use crate::block::BlockType;
use crate::coord::Coord;
use crate::fixed::{cell_floor, cell_of, fix_mul, lemma_cell_bounds, mul_fix, Vec3Fix, SCALE};
use crate::store::VoxelStore;
use vstd::arithmetic::div_mod::{
    lemma_div_is_ordered, lemma_div_multiples_vanish, lemma_fundamental_div_mod,
    lemma_mod_division_less_than_divisor,
};
use vstd::prelude::*;

verus! {

/// Largest coordinate magnitude (in ticks) the resolver accepts for an
/// actor position: one million world units from the origin.
pub const POS_LIMIT: i64 = 1_000_000_000;

/// Largest velocity magnitude (ticks per second) the resolver accepts:
/// a thousand world units per second.
pub const VEL_LIMIT: i64 = 1_000_000;

/// Largest time step (in thousandths of a second): ten seconds.
pub const DT_LIMIT: i64 = 10_000;

/// Largest half-extent of an actor's box: a thousand world units.
pub const EXTENT_LIMIT: i64 = 1_000_000;

/// Positions handed to the overlap test may lie somewhat outside
/// `POS_LIMIT`, since one integration step can carry the actor past it.
pub const OVERLAP_LIMIT: i64 = 2_000_000_000;

/// Gravity acceleration in ticks per second per second (downward).
pub const GRAVITY: i64 = -25_000;

/// Half-extents of an actor's axis-aligned box: `half_width` on x and z,
/// `half_height` on y, in fixed-point ticks.
#[derive(Clone, Copy, PartialEq, Eq, Structural, Debug)]
pub struct Aabb {
    pub half_width: i64,
    pub half_height: i64,
}

/// The box has positive extents no larger than `EXTENT_LIMIT`.
pub open spec fn aabb_ok(a: Aabb) -> bool {
    0 < a.half_width <= EXTENT_LIMIT && 0 < a.half_height <= EXTENT_LIMIT
}

/// All components of `p` lie within `lim` ticks of the origin.
pub open spec fn vec_within(p: Vec3Fix, lim: int) -> bool {
    -lim <= p.x <= lim && -lim <= p.y <= lim && -lim <= p.z <= lim
}

/// The continuous extent of an axis-aligned box.
pub struct BoxExtent {
    pub min_x: int,
    pub min_y: int,
    pub min_z: int,
    pub max_x: int,
    pub max_y: int,
    pub max_z: int,
}

/// The extent of a box with half-extents `hw`/`hh` centred at `(x, y, z)`.
pub open spec fn box_at(x: int, y: int, z: int, hw: int, hh: int) -> BoxExtent {
    BoxExtent {
        min_x: x - hw,
        min_y: y - hh,
        min_z: z - hw,
        max_x: x + hw,
        max_y: y + hh,
        max_z: z + hw,
    }
}

/// The extent of the box `a` centred at `p`.
pub open spec fn box_of(p: Vec3Fix, a: Aabb) -> BoxExtent {
    box_at(p.x as int, p.y as int, p.z as int, a.half_width as int, a.half_height as int)
}

/// Whether the box strictly intersects the closed unit cell at `c`
/// (cell faces touching the box do not count).
pub open spec fn cell_overlaps(b: BoxExtent, c: Coord) -> bool {
    &&& b.min_x < (c.x + 1) * (SCALE as int)
    &&& b.max_x > c.x * (SCALE as int)
    &&& b.min_y < (c.y + 1) * (SCALE as int)
    &&& b.max_y > c.y * (SCALE as int)
    &&& b.min_z < (c.z + 1) * (SCALE as int)
    &&& b.max_z > c.z * (SCALE as int)
}

/// Whether the box intersects at least one occupied cell of the store.
pub open spec fn world_overlaps(m: Map<Coord, BlockType>, b: BoxExtent) -> bool {
    exists|c: Coord| #[trigger] m.dom().contains(c) && cell_overlaps(b, c)
}

/// A cell whose index is outside `[cell_of(min), cell_of(max)]` on some
/// axis cannot intersect the box on that axis.
proof fn lemma_axis_outside(min: int, max: int, v: int)
    requires
        v < cell_of(min) || v > cell_of(max),
    ensures
        !(min < (v + 1) * (SCALE as int) && max > v * (SCALE as int)),
{
    if v < cell_of(min) {
        lemma_cell_bounds(min);
        assert((v + 1) * (SCALE as int) <= cell_of(min) * (SCALE as int));
    } else {
        lemma_cell_bounds(max);
        assert(cell_of(max) * (SCALE as int) + (SCALE as int) <= v * (SCALE as int));
    }
}

/// The outcome of one resolver step: new position, new velocity, and
/// whether the actor ended the step standing on a block.
pub struct ResolveOut {
    pub px: int,
    pub py: int,
    pub pz: int,
    pub vx: int,
    pub vy: int,
    pub vz: int,
    pub grounded: bool,
}

/// One integration step against the store: gravity is applied to the
/// vertical velocity, then each axis of the motion is resolved on its own,
/// X first, then Z, then Y, each against the positions already accepted.
/// A rejected axis zeroes that axis' velocity; a downward-rejected Y move
/// additionally grounds the actor and snaps its feet to the top face of
/// the cell the feet ended in.
pub open spec fn resolve_spec(
    m: Map<Coord, BlockType>,
    a: Aabb,
    p: Vec3Fix,
    v: Vec3Fix,
    dt: int,
    g: int,
) -> ResolveOut {
    let vy1 = v.y + fix_mul(g, dt);
    let nx = p.x + fix_mul(v.x as int, dt);
    let ny = p.y + fix_mul(vy1, dt);
    let nz = p.z + fix_mul(v.z as int, dt);
    let hw = a.half_width as int;
    let hh = a.half_height as int;
    let hit_x = world_overlaps(m, box_at(nx, p.y as int, p.z as int, hw, hh));
    let px = if hit_x {
        p.x as int
    } else {
        nx
    };
    let vx = if hit_x {
        0
    } else {
        v.x as int
    };
    let hit_z = world_overlaps(m, box_at(px, p.y as int, nz, hw, hh));
    let pz = if hit_z {
        p.z as int
    } else {
        nz
    };
    let vz = if hit_z {
        0
    } else {
        v.z as int
    };
    let hit_y = world_overlaps(m, box_at(px, ny, pz, hw, hh));
    if !hit_y {
        ResolveOut { px, py: ny, pz, vx, vy: vy1, vz, grounded: false }
    } else if vy1 < 0 {
        let feet = ny - hh;
        let py = (cell_of(feet) + 1) * (SCALE as int) + hh;
        ResolveOut { px, py, pz, vx, vy: 0, vz, grounded: true }
    } else {
        ResolveOut { px, py: p.y as int, pz, vx, vy: 0, vz, grounded: false }
    }
}

/// Floor division by `SCALE` keeps a value between linear bounds on the
/// dividend, divided by `SCALE`.
proof fn lemma_div_scale_ordered(x: int, lo: int, hi: int)
    requires
        lo <= x <= hi,
    ensures
        lo / (SCALE as int) <= x / (SCALE as int) <= hi / (SCALE as int),
{
    lemma_div_is_ordered(lo, x, SCALE as int);
    lemma_div_is_ordered(x, hi, SCALE as int);
}

/// A value within `b` of the origin stays within `b` after floor division
/// by `SCALE`.
proof fn lemma_cell_of_within(a: int, b: int)
    requires
        -b <= a <= b,
        0 <= b,
    ensures
        -b <= cell_of(a) <= b,
{
    lemma_fundamental_div_mod(a, SCALE as int);
    lemma_mod_division_less_than_divisor(a, SCALE as int);
}

/// Whether the box `aabb` centred at `pos` intersects at least one
/// occupied cell: true exactly when some stored block's unit cell meets
/// the box's continuous extent.
#[verifier::loop_isolation(false)]
pub fn overlaps(store: &VoxelStore, pos: Vec3Fix, aabb: Aabb) -> (r: bool)
    requires
        vec_within(pos, OVERLAP_LIMIT as int),
        aabb_ok(aabb),
    ensures
        r == world_overlaps(store@, box_of(pos, aabb)),
{
    let ghost bx = box_of(pos, aabb);
    let min_x = pos.x - aabb.half_width;
    let max_x = pos.x + aabb.half_width;
    let min_y = pos.y - aabb.half_height;
    let max_y = pos.y + aabb.half_height;
    let min_z = pos.z - aabb.half_width;
    let max_z = pos.z + aabb.half_width;
    let cx0 = cell_floor(min_x);
    let cx1 = cell_floor(max_x);
    let cy0 = cell_floor(min_y);
    let cy1 = cell_floor(max_y);
    let cz0 = cell_floor(min_z);
    let cz1 = cell_floor(max_z);
    proof {
        lemma_cell_of_within(min_x as int, 3_000_000_000);
        lemma_cell_of_within(max_x as int, 3_000_000_000);
        lemma_cell_of_within(min_y as int, 3_000_000_000);
        lemma_cell_of_within(max_y as int, 3_000_000_000);
        lemma_cell_of_within(min_z as int, 3_000_000_000);
        lemma_cell_of_within(max_z as int, 3_000_000_000);
    }
    let mut cx = cx0;
    while cx <= cx1
        invariant
            cx0 <= cx <= cx1 + 1,
            forall|c: Coord|
                cx0 <= c.x < cx && cy0 <= c.y <= cy1 && cz0 <= c.z <= cz1 ==> !(
                #[trigger] store@.dom().contains(c) && cell_overlaps(bx, c)),
        decreases cx1 + 1 - cx,
    {
        let mut cy = cy0;
        while cy <= cy1
            invariant
                cy0 <= cy <= cy1 + 1,
                forall|c: Coord|
                    cx0 <= c.x < cx && cy0 <= c.y <= cy1 && cz0 <= c.z <= cz1 ==> !(
                    #[trigger] store@.dom().contains(c) && cell_overlaps(bx, c)),
                forall|c: Coord|
                    c.x == cx && cy0 <= c.y < cy && cz0 <= c.z <= cz1 ==> !(
                    #[trigger] store@.dom().contains(c) && cell_overlaps(bx, c)),
            decreases cy1 + 1 - cy,
        {
            let mut cz = cz0;
            while cz <= cz1
                invariant
                    cz0 <= cz <= cz1 + 1,
                    forall|c: Coord|
                        cx0 <= c.x < cx && cy0 <= c.y <= cy1 && cz0 <= c.z <= cz1 ==> !(
                        #[trigger] store@.dom().contains(c) && cell_overlaps(bx, c)),
                    forall|c: Coord|
                        c.x == cx && cy0 <= c.y < cy && cz0 <= c.z <= cz1 ==> !(
                        #[trigger] store@.dom().contains(c) && cell_overlaps(bx, c)),
                    forall|c: Coord|
                        c.x == cx && c.y == cy && cz0 <= c.z < cz ==> !(
                        #[trigger] store@.dom().contains(c) && cell_overlaps(bx, c)),
                decreases cz1 + 1 - cz,
            {
                let cell = Coord { x: cx, y: cy, z: cz };
                if store.contains(cell) {
                    if min_x < (cx + 1) * SCALE && max_x > cx * SCALE && min_y < (cy + 1) * SCALE
                        && max_y > cy * SCALE && min_z < (cz + 1) * SCALE && max_z > cz * SCALE {
                        proof {
                            assert(store@.dom().contains(cell) && cell_overlaps(bx, cell));
                        }
                        return true;
                    }
                }
                cz = cz + 1;
            }
            cy = cy + 1;
        }
        cx = cx + 1;
    }
    proof {
        assert forall|c: Coord| store@.dom().contains(c) implies !cell_overlaps(bx, c) by {
            if cx0 <= c.x <= cx1 && cy0 <= c.y <= cy1 && cz0 <= c.z <= cz1 {
            } else {
                if !(cx0 <= c.x <= cx1) {
                    lemma_axis_outside(bx.min_x, bx.max_x, c.x as int);
                } else if !(cy0 <= c.y <= cy1) {
                    lemma_axis_outside(bx.min_y, bx.max_y, c.y as int);
                } else {
                    lemma_axis_outside(bx.min_z, bx.max_z, c.z as int);
                }
            }
        }
    }
    false
}

/// Resolve one time step of motion for the box `aabb` at `pos` moving with
/// velocity `vel` against the store: gravity, then per-axis integration in
/// the order X, Z, Y. Returns the new position, the new velocity, and
/// whether the actor is grounded.
pub fn resolve(
    store: &VoxelStore,
    aabb: Aabb,
    pos: Vec3Fix,
    vel: Vec3Fix,
    dt: i64,
    gravity: i64,
) -> (r: (Vec3Fix, Vec3Fix, bool))
    requires
        vec_within(pos, POS_LIMIT as int),
        vec_within(vel, VEL_LIMIT as int),
        0 <= dt <= DT_LIMIT,
        -VEL_LIMIT <= gravity <= VEL_LIMIT,
        aabb_ok(aabb),
    ensures
        ({
            let out = resolve_spec(store@, aabb, pos, vel, dt as int, gravity as int);
            r.0.x == out.px && r.0.y == out.py && r.0.z == out.pz && r.1.x == out.vx && r.1.y
                == out.vy && r.1.z == out.vz && r.2 == out.grounded
        }),
        vec_within(r.0, POS_LIMIT as int + 500_000_000),
        vec_within(r.1, VEL_LIMIT as int + 10_000_000),
{
    proof {
        assert(-10_000_000_000 <= (gravity as int) * (dt as int) <= 10_000_000_000)
            by (nonlinear_arith)
            requires
                -VEL_LIMIT <= gravity <= VEL_LIMIT,
                0 <= dt <= DT_LIMIT,
        ;
        lemma_div_scale_ordered((gravity as int) * (dt as int), -10_000_000_000, 10_000_000_000);
        lemma_div_multiples_vanish(-10_000_000, SCALE as int);
        lemma_div_multiples_vanish(10_000_000, SCALE as int);
        assert((SCALE as int) * (-10_000_000) == -10_000_000_000);
        assert((SCALE as int) * 10_000_000 == 10_000_000_000);
    }
    let vy1: i64 = vel.y + mul_fix(gravity, dt);
    proof {
        assert(-10_000_000_000 <= (vel.x as int) * (dt as int) <= 10_000_000_000)
            by (nonlinear_arith)
            requires
                -VEL_LIMIT <= vel.x <= VEL_LIMIT,
                0 <= dt <= DT_LIMIT,
        ;
        lemma_div_scale_ordered((vel.x as int) * (dt as int), -10_000_000_000, 10_000_000_000);
        assert(-10_000_000_000 <= (vel.z as int) * (dt as int) <= 10_000_000_000)
            by (nonlinear_arith)
            requires
                -VEL_LIMIT <= vel.z <= VEL_LIMIT,
                0 <= dt <= DT_LIMIT,
        ;
        lemma_div_scale_ordered((vel.z as int) * (dt as int), -10_000_000_000, 10_000_000_000);
        assert(-110_000_000_000 <= (vy1 as int) * (dt as int) <= 110_000_000_000)
            by (nonlinear_arith)
            requires
                -11_000_000 <= vy1 <= 11_000_000,
                0 <= dt <= DT_LIMIT,
        ;
        lemma_div_scale_ordered((vy1 as int) * (dt as int), -110_000_000_000, 110_000_000_000);
        lemma_div_multiples_vanish(-110_000_000, SCALE as int);
        lemma_div_multiples_vanish(110_000_000, SCALE as int);
        assert((SCALE as int) * (-110_000_000) == -110_000_000_000);
        assert((SCALE as int) * 110_000_000 == 110_000_000_000);
    }
    let nx: i64 = pos.x + mul_fix(vel.x, dt);
    let ny: i64 = pos.y + mul_fix(vy1, dt);
    let nz: i64 = pos.z + mul_fix(vel.z, dt);

    // X axis: substitute only the x coordinate into the current position.
    let hit_x = overlaps(store, Vec3Fix { x: nx, y: pos.y, z: pos.z }, aabb);
    let px: i64 = if hit_x {
        pos.x
    } else {
        nx
    };
    let vx: i64 = if hit_x {
        0
    } else {
        vel.x
    };

    // Z axis, against the x position already accepted.
    let hit_z = overlaps(store, Vec3Fix { x: px, y: pos.y, z: nz }, aabb);
    let pz: i64 = if hit_z {
        pos.z
    } else {
        nz
    };
    let vz: i64 = if hit_z {
        0
    } else {
        vel.z
    };

    // Y axis last.
    let hit_y = overlaps(store, Vec3Fix { x: px, y: ny, z: pz }, aabb);
    if !hit_y {
        (Vec3Fix { x: px, y: ny, z: pz }, Vec3Fix { x: vx, y: vy1, z: vz }, false)
    } else if vy1 < 0 {
        // Falling into a block: ground the actor and snap its feet onto the
        // top face of the cell the feet ended in.
        let feet: i64 = ny - aabb.half_height;
        proof {
            lemma_div_scale_ordered(feet as int, -1_300_000_000, 1_300_000_000);
            lemma_div_multiples_vanish(-1_300_000, SCALE as int);
            lemma_div_multiples_vanish(1_300_000, SCALE as int);
            assert((SCALE as int) * (-1_300_000) == -1_300_000_000);
            assert((SCALE as int) * 1_300_000 == 1_300_000_000);
        }
        let py: i64 = (cell_floor(feet) + 1) * SCALE + aabb.half_height;
        (Vec3Fix { x: px, y: py, z: pz }, Vec3Fix { x: vx, y: 0, z: vz }, true)
    } else {
        // Rising into a ceiling: stop the vertical motion, stay airborne.
        (Vec3Fix { x: px, y: pos.y, z: pz }, Vec3Fix { x: vx, y: 0, z: vz }, false)
    }
}

} // verus!
