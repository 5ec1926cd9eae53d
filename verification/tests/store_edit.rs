//! Tests of the voxel store, the inventory, and the world editor.

use voxel_core::{
    break_block, place_block, BlockType, Coord, EditEffect, Inventory, ItemStack, ItemType,
    ProxyIntent, VoxelStore,
};

fn c(x: i64, y: i64, z: i64) -> Coord {
    Coord::new(x, y, z)
}

#[test]
fn insert_then_remove_restores_store() {
    let mut store = VoxelStore::new(true);
    let (ok, _) = store.insert(c(0, 0, 0), BlockType::Grass);
    assert!(ok);
    assert!(store.contains(c(0, 0, 0)));
    let (removed, _) = store.remove(c(0, 0, 0));
    assert_eq!(removed, Some(BlockType::Grass));
    assert!(!store.contains(c(0, 0, 0)));
    assert!(store.is_empty());
}

#[test]
fn insert_into_occupied_cell_fails() {
    let mut store = VoxelStore::new(true);
    let (ok, _) = store.insert(c(1, 2, 3), BlockType::Dirt);
    assert!(ok);
    let (ok2, intents) = store.insert(c(1, 2, 3), BlockType::Stone);
    assert!(!ok2);
    assert!(intents.is_empty());
    assert_eq!(store.get(c(1, 2, 3)), Some(BlockType::Dirt));
}

#[test]
fn two_inserts_then_removals_in_any_order_empty_the_store() {
    for order in 0..2 {
        let mut store = VoxelStore::new(true);
        let (ok1, _) = store.insert(c(0, 0, 0), BlockType::Wood);
        let (ok2, _) = store.insert(c(5, -2, 7), BlockType::Wood);
        assert!(ok1 && ok2);
        assert!(store.contains(c(0, 0, 0)));
        assert!(store.contains(c(5, -2, 7)));
        let (first, second) = if order == 0 {
            (c(0, 0, 0), c(5, -2, 7))
        } else {
            (c(5, -2, 7), c(0, 0, 0))
        };
        assert_eq!(store.remove(first).0, Some(BlockType::Wood));
        assert_eq!(store.remove(second).0, Some(BlockType::Wood));
        assert!(store.is_empty());
    }
}

#[test]
fn repeated_insert_at_same_coordinate_still_empties() {
    let mut store = VoxelStore::new(true);
    let (ok1, _) = store.insert(c(1, 1, 1), BlockType::Wood);
    let (ok2, _) = store.insert(c(1, 1, 1), BlockType::Wood);
    assert!(ok1);
    assert!(!ok2);
    assert!(store.contains(c(1, 1, 1)));
    assert_eq!(store.remove(c(1, 1, 1)).0, Some(BlockType::Wood));
    assert_eq!(store.remove(c(1, 1, 1)).0, None);
    assert!(store.is_empty());
}

#[test]
fn get_on_empty_cell_is_none() {
    let store = VoxelStore::new(true);
    assert_eq!(store.get(c(4, 4, 4)), None);
    assert!(!store.contains(c(4, 4, 4)));
}

#[test]
fn single_block_insert_requests_one_proxy() {
    let mut store = VoxelStore::new(true);
    let (ok, intents) = store.insert(c(2, 3, 4), BlockType::Leaves);
    assert!(ok);
    assert_eq!(intents, vec![ProxyIntent::Create(c(2, 3, 4), BlockType::Leaves)]);
}

#[test]
fn enclosing_a_block_requests_destroying_its_proxy() {
    let mut store = VoxelStore::new(true);
    let center = c(0, 0, 0);
    store.insert(center, BlockType::Stone);
    // The first five neighbours leave the centre exposed.
    store.insert(c(1, 0, 0), BlockType::Stone);
    store.insert(c(-1, 0, 0), BlockType::Stone);
    store.insert(c(0, 1, 0), BlockType::Stone);
    store.insert(c(0, -1, 0), BlockType::Stone);
    store.insert(c(0, 0, 1), BlockType::Stone);
    assert!(store.is_exposed(center));
    // The sixth buries the centre: its proxy must go.
    let (ok, intents) = store.insert(c(0, 0, -1), BlockType::Stone);
    assert!(ok);
    assert!(!store.is_exposed(center));
    assert_eq!(
        intents,
        vec![
            ProxyIntent::Create(c(0, 0, -1), BlockType::Stone),
            ProxyIntent::Destroy(center),
        ]
    );
}

#[test]
fn breaking_a_neighbor_reexposes_a_buried_block() {
    let mut store = VoxelStore::new(true);
    let center = c(0, 0, 0);
    store.insert(center, BlockType::Grass);
    store.insert(c(1, 0, 0), BlockType::Stone);
    store.insert(c(-1, 0, 0), BlockType::Stone);
    store.insert(c(0, 1, 0), BlockType::Stone);
    store.insert(c(0, -1, 0), BlockType::Stone);
    store.insert(c(0, 0, 1), BlockType::Stone);
    store.insert(c(0, 0, -1), BlockType::Stone);
    let mut inv = Inventory::new();
    let (effect, intents) = break_block(&mut store, &mut inv, c(0, 1, 0));
    assert_eq!(effect, EditEffect::Broken(BlockType::Stone));
    assert_eq!(
        intents,
        vec![
            ProxyIntent::Destroy(c(0, 1, 0)),
            ProxyIntent::Create(center, BlockType::Grass),
        ]
    );
}

#[test]
fn untracked_store_always_requests_a_proxy_per_block() {
    let mut store = VoxelStore::new(false);
    let center = c(0, 0, 0);
    store.insert(center, BlockType::Dirt);
    store.insert(c(1, 0, 0), BlockType::Dirt);
    store.insert(c(-1, 0, 0), BlockType::Dirt);
    store.insert(c(0, 1, 0), BlockType::Dirt);
    store.insert(c(0, -1, 0), BlockType::Dirt);
    store.insert(c(0, 0, 1), BlockType::Dirt);
    // Even the burying insertion creates a proxy and destroys none.
    let (ok, intents) = store.insert(c(0, 0, -1), BlockType::Dirt);
    assert!(ok);
    assert_eq!(intents, vec![ProxyIntent::Create(c(0, 0, -1), BlockType::Dirt)]);
    // Breaking the buried centre still destroys its proxy, and requests
    // no creations for the neighbours.
    let mut inv = Inventory::new();
    let (effect, intents) = break_block(&mut store, &mut inv, center);
    assert_eq!(effect, EditEffect::Broken(BlockType::Dirt));
    assert_eq!(intents, vec![ProxyIntent::Destroy(center)]);
}

#[test]
fn break_block_credits_the_inventory() {
    let mut store = VoxelStore::new(true);
    store.insert(c(0, 0, 0), BlockType::Leaves);
    let mut inv = Inventory::new();
    assert!(!inv.has_item(ItemType::Block(BlockType::Leaves)));
    let (effect, _) = break_block(&mut store, &mut inv, c(0, 0, 0));
    assert_eq!(effect, EditEffect::Broken(BlockType::Leaves));
    assert!(inv.has_item(ItemType::Block(BlockType::Leaves)));
    assert_eq!(
        inv.get_slot(3),
        Some(ItemStack { item_type: ItemType::Block(BlockType::Leaves), count: 1 })
    );
    assert!(!store.contains(c(0, 0, 0)));
}

#[test]
fn break_block_on_empty_cell_has_no_effect() {
    let mut store = VoxelStore::new(true);
    store.insert(c(9, 9, 9), BlockType::Stone);
    let mut inv = Inventory::new();
    let before: Vec<Option<ItemStack>> = (0..inv.slot_count()).map(|i| inv.get_slot(i)).collect();
    let (effect, intents) = break_block(&mut store, &mut inv, c(0, 0, 0));
    assert_eq!(effect, EditEffect::NoEffect);
    assert!(intents.is_empty());
    let after: Vec<Option<ItemStack>> = (0..inv.slot_count()).map(|i| inv.get_slot(i)).collect();
    assert_eq!(before, after);
    assert!(store.contains(c(9, 9, 9)));
}

#[test]
fn place_into_occupied_target_has_no_effect() {
    let mut store = VoxelStore::new(true);
    store.insert(c(3, 0, 0), BlockType::Stone);
    let mut inv = Inventory::new();
    let before: Vec<Option<ItemStack>> = (0..inv.slot_count()).map(|i| inv.get_slot(i)).collect();
    let (effect, intents) = place_block(&mut store, &mut inv, c(2, 0, 0), c(1, 0, 0));
    assert_eq!(effect, EditEffect::NoEffect);
    assert!(intents.is_empty());
    let after: Vec<Option<ItemStack>> = (0..inv.slot_count()).map(|i| inv.get_slot(i)).collect();
    assert_eq!(before, after);
    assert_eq!(store.get(c(3, 0, 0)), Some(BlockType::Stone));
}

#[test]
fn place_block_inserts_and_consumes_a_unit() {
    let mut store = VoxelStore::new(true);
    store.insert(c(0, 0, 0), BlockType::Grass);
    let mut inv = Inventory::new();
    // Slot 0 is selected and holds 64 dirt.
    let (effect, intents) = place_block(&mut store, &mut inv, c(0, 0, 0), c(0, 1, 0));
    assert_eq!(effect, EditEffect::Placed(BlockType::Dirt));
    assert_eq!(store.get(c(0, 1, 0)), Some(BlockType::Dirt));
    assert_eq!(
        inv.get_slot(0),
        Some(ItemStack { item_type: ItemType::Block(BlockType::Dirt), count: 63 })
    );
    assert_eq!(intents, vec![ProxyIntent::Create(c(0, 1, 0), BlockType::Dirt)]);
}

#[test]
fn place_with_empty_selected_slot_has_no_effect() {
    let mut store = VoxelStore::new(true);
    let mut inv = Inventory::new();
    inv.set_selected(7);
    assert_eq!(inv.get_slot(7), None);
    let (effect, intents) = place_block(&mut store, &mut inv, c(0, 0, 0), c(0, 1, 0));
    assert_eq!(effect, EditEffect::NoEffect);
    assert!(intents.is_empty());
    assert!(!store.contains(c(0, 1, 0)));
}

#[test]
fn inventory_starts_with_default_stacks() {
    let inv = Inventory::new();
    assert_eq!(inv.slot_count(), 36);
    assert_eq!(inv.selected_index(), 0);
    assert_eq!(
        inv.get_slot(0),
        Some(ItemStack { item_type: ItemType::Block(BlockType::Dirt), count: 64 })
    );
    assert_eq!(
        inv.get_slot(1),
        Some(ItemStack { item_type: ItemType::Block(BlockType::Stone), count: 64 })
    );
    assert_eq!(
        inv.get_slot(2),
        Some(ItemStack { item_type: ItemType::Block(BlockType::Wood), count: 32 })
    );
    assert_eq!(inv.get_slot(3), None);
}

#[test]
fn add_item_tops_up_existing_stacks_first() {
    let mut inv = Inventory::new();
    // Wood sits at 32 of 64; adding 40 fills it and opens a new stack of 8.
    assert!(inv.add_item(ItemType::Block(BlockType::Wood), 40));
    assert_eq!(
        inv.get_slot(2),
        Some(ItemStack { item_type: ItemType::Block(BlockType::Wood), count: 64 })
    );
    assert_eq!(
        inv.get_slot(3),
        Some(ItemStack { item_type: ItemType::Block(BlockType::Wood), count: 8 })
    );
}

#[test]
fn add_item_respects_the_pickaxe_stack_limit() {
    let mut inv = Inventory::new();
    assert!(inv.add_item(ItemType::WoodPickaxe, 2));
    assert_eq!(inv.get_slot(3), Some(ItemStack { item_type: ItemType::WoodPickaxe, count: 1 }));
    assert_eq!(inv.get_slot(4), Some(ItemStack { item_type: ItemType::WoodPickaxe, count: 1 }));
}

#[test]
fn add_item_reports_overflow() {
    let mut inv = Inventory::new();
    // Free room for dirt: 33 empty slots of 64 = 2112 units.
    assert!(!inv.add_item(ItemType::Block(BlockType::Dirt), 3000));
    for i in 3..36 {
        assert_eq!(
            inv.get_slot(i),
            Some(ItemStack { item_type: ItemType::Block(BlockType::Dirt), count: 64 })
        );
    }
}

#[test]
fn remove_selected_takes_one_unit() {
    let mut inv = Inventory::new();
    assert!(inv.remove_selected());
    assert_eq!(
        inv.get_slot(0),
        Some(ItemStack { item_type: ItemType::Block(BlockType::Dirt), count: 63 })
    );
}

#[test]
fn remove_selected_drops_an_emptied_stack() {
    let mut inv = Inventory::new();
    inv.set_selected(5);
    assert!(inv.add_item(ItemType::Stick, 1));
    inv.set_selected(3);
    assert_eq!(inv.get_slot(3), Some(ItemStack { item_type: ItemType::Stick, count: 1 }));
    assert!(inv.remove_selected());
    assert_eq!(inv.get_slot(3), None);
    assert!(!inv.remove_selected());
}

#[test]
fn max_stack_values() {
    assert_eq!(ItemType::WoodPickaxe.max_stack(), 1);
    assert_eq!(ItemType::Block(BlockType::Grass).max_stack(), 64);
    assert_eq!(ItemType::Stick.max_stack(), 64);
}

#[test]
fn display_names() {
    assert_eq!(ItemType::Block(BlockType::Grass).display_name(), "Grass");
    assert_eq!(ItemType::RawPork.display_name(), "Raw Pork");
    assert_eq!(ItemType::WoodPickaxe.display_name(), "Wood Pickaxe");
}
