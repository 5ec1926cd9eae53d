//! Tests of the collision overlap test, the per-axis resolver, and the
//! DDA raycast. Continuous values are in fixed-point ticks: 1000 ticks to
//! a world unit.

use voxel_core::{cast, overlaps, resolve, Aabb, BlockType, Coord, RaycastHit, Vec3Fix, VoxelStore};

fn c(x: i64, y: i64, z: i64) -> Coord {
    Coord::new(x, y, z)
}

fn v(x: i64, y: i64, z: i64) -> Vec3Fix {
    Vec3Fix::new(x, y, z)
}

fn one_block_world() -> VoxelStore {
    let mut store = VoxelStore::new(true);
    store.insert(c(0, 0, 0), BlockType::Stone);
    store
}

#[test]
fn overlap_in_empty_space_is_false() {
    let store = VoxelStore::new(true);
    let aabb = Aabb { half_width: 300, half_height: 500 };
    assert!(!overlaps(&store, v(0, 5_000, 0), aabb));
}

#[test]
fn overlap_with_an_occupied_cell_is_true() {
    let store = one_block_world();
    let aabb = Aabb { half_width: 300, half_height: 500 };
    // Box spans y in [500, 1500]; the block spans [0, 1000].
    assert!(overlaps(&store, v(0, 1_000, 0), aabb));
    // Even a tiny intrusion counts.
    assert!(overlaps(&store, v(500, 1_499, 500), aabb));
}

#[test]
fn touching_faces_do_not_overlap() {
    let store = one_block_world();
    let aabb = Aabb { half_width: 300, half_height: 500 };
    // Box bottom exactly on the block's top face: y in [1000, 2000].
    assert!(!overlaps(&store, v(500, 1_500, 500), aabb));
    // Box side exactly on the block's side face: x in [1000, 1600].
    assert!(!overlaps(&store, v(1_300, 500, 500), aabb));
}

#[test]
fn falling_actor_lands_on_the_block() {
    // A box half a unit tall centred one unit up, falling at five units a
    // second for a tenth of a second, comes to rest with its feet exactly
    // on the block's top face.
    let store = one_block_world();
    let aabb = Aabb { half_width: 300, half_height: 500 };
    let (pos, vel, grounded) = resolve(&store, aabb, v(0, 1_000, 0), v(0, -5_000, 0), 100, 0);
    assert!(grounded);
    assert_eq!(vel.y, 0);
    assert_eq!(pos.y, 1_500);  // feet at 1000: the top surface of the block
    assert_eq!(pos.x, 0);
    assert_eq!(pos.z, 0);
}

#[test]
fn free_fall_applies_gravity_first() {
    let store = VoxelStore::new(true);
    let aabb = Aabb { half_width: 300, half_height: 500 };
    let (pos, vel, grounded) = resolve(&store, aabb, v(0, 10_000, 0), v(0, 0, 0), 100, -25_000);
    assert!(!grounded);
    assert_eq!(vel.y, -2_500);
    assert_eq!(pos.y, 10_000 - 250);
}

#[test]
fn rejected_horizontal_move_zeroes_that_axis() {
    let mut store = VoxelStore::new(true);
    store.insert(c(1, 0, 0), BlockType::Stone);
    let aabb = Aabb { half_width: 300, half_height: 400 };
    // Moving +x from the cell left of the block into its face.
    let (pos, vel, grounded) = resolve(&store, aabb, v(500, 500, 500), v(3_000, 0, 0), 100, 0);
    assert_eq!(pos.x, 500);
    assert_eq!(vel.x, 0);
    assert_eq!(pos.z, 500);
    assert!(!grounded);
}

#[test]
fn hitting_a_ceiling_zeroes_upward_velocity() {
    let mut store = VoxelStore::new(true);
    store.insert(c(0, 2, 0), BlockType::Stone);
    let aabb = Aabb { half_width: 300, half_height: 500 };
    let (pos, vel, grounded) = resolve(&store, aabb, v(500, 1_200, 500), v(0, 5_000, 0), 100, 0);
    assert!(!grounded);
    assert_eq!(vel.y, 0);
    assert_eq!(pos.y, 1_200);
}

#[test]
fn snap_uses_the_cell_the_feet_ended_in() {
    // With gravity on, the same drop as in `falling_actor_lands_on_the_block`
    // carries the feet below the block's top cell; the snap formula
    // (floor of the feet coordinate, plus one cell) then rests the feet on
    // the cell the feet ended in.
    let store = one_block_world();
    let aabb = Aabb { half_width: 300, half_height: 500 };
    let (pos, vel, grounded) = resolve(&store, aabb, v(0, 1_000, 0), v(0, -5_000, 0), 100, -25_000);
    assert!(grounded);
    assert_eq!(vel.y, 0);
    // Feet fell to -250, in cell -1, so they snap to that cell's top at 0.
    assert_eq!(pos.y, 500);
}

#[test]
fn raycast_straight_down_hits_the_block_from_above() {
    let store = one_block_world();
    let hit = cast(&store, v(500, 3_500, 500), v(0, -1_000, 0), 100);
    assert_eq!(hit, Some(RaycastHit { coord: c(0, 0, 0), normal: c(0, 1, 0) }));
}

#[test]
fn raycast_sideways_reports_the_struck_face() {
    let mut store = VoxelStore::new(true);
    store.insert(c(3, 0, 0), BlockType::Stone);
    let hit = cast(&store, v(500, 500, 500), v(1_000, 0, 0), 100);
    assert_eq!(hit, Some(RaycastHit { coord: c(3, 0, 0), normal: c(-1, 0, 0) }));
}

#[test]
fn raycast_from_inside_a_block_has_zero_normal() {
    let mut store = VoxelStore::new(true);
    store.insert(c(-1, 0, 0), BlockType::Stone);
    let hit = cast(&store, v(-500, 500, 500), v(0, -1_000, 0), 100);
    assert_eq!(hit, Some(RaycastHit { coord: c(-1, 0, 0), normal: c(0, 0, 0) }));
}

#[test]
fn raycast_with_zero_direction_misses() {
    let store = one_block_world();
    assert_eq!(cast(&store, v(500, 500, 500), v(0, 0, 0), 100), None);
}

#[test]
fn raycast_budget_bounds_the_traversal() {
    let store = one_block_world();
    let origin = v(500, 3_500, 500);
    let down = v(0, -1_000, 0);
    // The hit cell is the fourth visited: three steps are too few.
    assert_eq!(cast(&store, origin, down, 3), None);
    assert!(cast(&store, origin, down, 4).is_some());
}

#[test]
fn raycast_past_everything_misses() {
    let store = one_block_world();
    let hit = cast(&store, v(500, 3_500, 500), v(0, 1_000, 0), 50);
    assert_eq!(hit, None);
}

#[test]
fn raycast_ties_advance_x_before_y_before_z() {
    // From a cell corner along the diagonal every boundary is equally
    // near, so the traversal must leave through the x face first.
    let mut store = VoxelStore::new(true);
    store.insert(c(1, 0, 0), BlockType::Stone);
    let hit = cast(&store, v(0, 0, 0), v(1_000, 1_000, 1_000), 10);
    assert_eq!(hit, Some(RaycastHit { coord: c(1, 0, 0), normal: c(-1, 0, 0) }));
}
