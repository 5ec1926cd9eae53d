//! Tests of the per-frame simulation pipeline: motion, targeting and
//! editing in one ordered `tick`.

use voxel_core::{
    tick, Aabb, BlockType, Coord, EditEffect, EditRequest, Inventory, ItemStack, ItemType,
    ProxyIntent, Vec3Fix, VoxelStore,
};

fn c(x: i64, y: i64, z: i64) -> Coord {
    Coord::new(x, y, z)
}

fn v(x: i64, y: i64, z: i64) -> Vec3Fix {
    Vec3Fix::new(x, y, z)
}

const AABB: Aabb = Aabb { half_width: 300, half_height: 500 };
const DOWN: Vec3Fix = Vec3Fix { x: 0, y: -1_000, z: 0 };

#[test]
fn tick_without_edit_only_moves_the_actor() {
    let mut store = VoxelStore::new(true);
    store.insert(c(0, 0, 0), BlockType::Stone);
    let mut inv = Inventory::new();
    let out = tick(
        &mut store,
        &mut inv,
        AABB,
        v(500, 2_500, 500),
        v(0, 0, 0),
        100,
        -25_000,
        500,
        DOWN,
        100,
        EditRequest::NoEdit,
    );
    // Gravity accelerates the fall; nothing is edited.
    assert_eq!(out.vel.y, -2_500);
    assert_eq!(out.pos.y, 2_250);
    assert!(!out.grounded);
    assert_eq!(out.target.map(|h| h.coord), Some(c(0, 0, 0)));
    assert_eq!(out.effect, EditEffect::NoEffect);
    assert!(out.proxy_intents.is_empty());
    assert!(store.contains(c(0, 0, 0)));
}

#[test]
fn tick_breaks_the_targeted_block() {
    let mut store = VoxelStore::new(true);
    store.insert(c(0, 0, 0), BlockType::Stone);
    let mut inv = Inventory::new();
    let out = tick(
        &mut store,
        &mut inv,
        AABB,
        v(500, 2_500, 500),
        v(0, 0, 0),
        100,
        -25_000,
        500,
        DOWN,
        100,
        EditRequest::BreakTargeted,
    );
    assert_eq!(out.effect, EditEffect::Broken(BlockType::Stone));
    assert_eq!(out.proxy_intents, vec![ProxyIntent::Destroy(c(0, 0, 0))]);
    assert!(store.is_empty());
    assert_eq!(
        inv.get_slot(3),
        Some(ItemStack { item_type: ItemType::Block(BlockType::Stone), count: 1 })
    );
}

#[test]
fn tick_places_against_the_struck_face() {
    let mut store = VoxelStore::new(true);
    store.insert(c(0, 0, 0), BlockType::Stone);
    let mut inv = Inventory::new();
    let out = tick(
        &mut store,
        &mut inv,
        AABB,
        v(500, 2_500, 500),
        v(0, 0, 0),
        100,
        0,
        500,
        DOWN,
        100,
        EditRequest::PlaceSelected,
    );
    // The ray strikes the block's top; the selected dirt goes on top of it.
    assert_eq!(out.effect, EditEffect::Placed(BlockType::Dirt));
    assert_eq!(store.get(c(0, 1, 0)), Some(BlockType::Dirt));
    assert_eq!(
        inv.get_slot(0),
        Some(ItemStack { item_type: ItemType::Block(BlockType::Dirt), count: 63 })
    );
}

#[test]
fn tick_edit_request_without_a_target_is_a_no_op() {
    let mut store = VoxelStore::new(true);
    let mut inv = Inventory::new();
    let out = tick(
        &mut store,
        &mut inv,
        AABB,
        v(500, 2_500, 500),
        v(0, 0, 0),
        100,
        0,
        500,
        DOWN,
        10,
        EditRequest::BreakTargeted,
    );
    assert_eq!(out.target, None);
    assert_eq!(out.effect, EditEffect::NoEffect);
    assert!(out.proxy_intents.is_empty());
    assert!(store.is_empty());
}
