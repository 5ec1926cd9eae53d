//! World edits: breaking and placing blocks.
//!
//! Both operations consume a raycast result. Breaking removes the block
//! under the hit, credits one unit of it to the inventory, and asks the
//! renderer to drop the block's proxy and to create proxies for neighbours
//! the removal newly exposes. Placing steps from the hit cell through the
//! struck face, and inserts the selected inventory block there if the
//! target cell is free and the selected stack holds a placeable block.
//! Every no-op condition (breaking air, placing into an occupied cell,
//! placing with an empty or non-block stack) changes nothing and reports
//! `NoEffect`.

use crate::block::{BlockType, ItemType};
use crate::coord::{coord_in_range, coord_within, face_ok, Coord, COORD_LIMIT};
use crate::inventory::{add_result, consume_selected, spec_selected_block, Inventory};
use crate::store::{
    insert_intents, needs_proxy, remove_intents, ProxyIntent, VoxelStore,
};
use vstd::prelude::*;

verus! {

/// What a world edit did: nothing, broke a block of the given kind, or
/// placed one.
#[derive(Clone, Copy, PartialEq, Eq, Structural, Debug)]
pub enum EditEffect {
    NoEffect,
    Broken(BlockType),
    Placed(BlockType),
}

/// The cell in front of the struck face: the hit cell offset by the
/// normal.
pub open spec fn target_of(c: Coord, f: Coord) -> Coord {
    Coord { x: (c.x + f.x) as i64, y: (c.y + f.y) as i64, z: (c.z + f.z) as i64 }
}

/// Proxy requests of a successful break at `c`: drop the proxy of the
/// broken block if it carried one, then create proxies for the neighbours
/// its removal newly exposes.
pub open spec fn break_intents(m: Map<Coord, BlockType>, track: bool, c: Coord) -> Seq<
    ProxyIntent,
> {
    (if needs_proxy(m, track, c) {
        seq![ProxyIntent::Destroy(c)]
    } else {
        Seq::empty()
    }) + remove_intents(m, track, c)
}

/// Break the block at `c`: remove it from the store, credit one unit of
/// its kind to the inventory, and return the proxy requests. Breaking an
/// empty cell has no effect.
pub fn break_block(store: &mut VoxelStore, inv: &mut Inventory, c: Coord) -> (r: (
    EditEffect,
    Vec<ProxyIntent>,
))
    requires
        coord_in_range(c),
        old(inv).well_formed(),
    ensures
        final(inv).well_formed(),
        final(store).tracking() == old(store).tracking(),
        final(inv).selected_slot() == old(inv).selected_slot(),
        !old(store)@.dom().contains(c) ==> r.0 == EditEffect::NoEffect
            && final(store)@ == old(store)@ && final(inv).stacks() == old(inv).stacks()
            && r.1@ =~= Seq::<ProxyIntent>::empty(),
        old(store)@.dom().contains(c) ==> ({
            let b = old(store)@[c];
            r.0 == EditEffect::Broken(b) && final(store)@ == old(store)@.remove(c)
                && final(inv).stacks() =~= add_result(old(inv).stacks(), ItemType::Block(b), 1).0
                && r.1@ =~= break_intents(old(store)@, old(store).tracking(), c)
        }),
{
    let had_proxy = store.contains(c) && (!store.is_tracking() || store.is_exposed(c));
    let (removed, mut neighbor_intents) = store.remove(c);
    match removed {
        None => (EditEffect::NoEffect, neighbor_intents),
        Some(b) => {
            let mut intents: Vec<ProxyIntent> = Vec::new();
            if had_proxy {
                intents.push(ProxyIntent::Destroy(c));
            }
            intents.append(&mut neighbor_intents);
            inv.add_item(ItemType::Block(b), 1);
            (EditEffect::Broken(b), intents)
        },
    }
}

/// Place the selected inventory block into the cell in front of the
/// struck face: a no-op when that cell is occupied or the selected stack
/// is empty or holds no placeable block; otherwise the block is inserted,
/// one unit leaves the selected stack, and the insertion's proxy requests
/// are returned.
pub fn place_block(store: &mut VoxelStore, inv: &mut Inventory, c: Coord, face: Coord) -> (r: (
    EditEffect,
    Vec<ProxyIntent>,
))
    requires
        coord_within(c, COORD_LIMIT - 1),
        face_ok(face),
        old(inv).well_formed(),
    ensures
        final(inv).well_formed(),
        final(store).tracking() == old(store).tracking(),
        final(inv).selected_slot() == old(inv).selected_slot(),
        ({
            let t = target_of(c, face);
            let sel = old(inv).selected_slot();
            if old(store)@.dom().contains(t) {
                r.0 == EditEffect::NoEffect && final(store)@ == old(store)@
                    && final(inv).stacks() == old(inv).stacks()
                    && r.1@ =~= Seq::<ProxyIntent>::empty()
            } else {
                match spec_selected_block(old(inv).stacks(), sel) {
                    None => r.0 == EditEffect::NoEffect && final(store)@ == old(store)@
                        && final(inv).stacks() == old(inv).stacks()
                        && r.1@ =~= Seq::<ProxyIntent>::empty(),
                    Some(b) => r.0 == EditEffect::Placed(b)
                        && final(store)@ == old(store)@.insert(t, b)
                        && final(inv).stacks() =~= consume_selected(old(inv).stacks(), sel)
                        && r.1@ =~= insert_intents(old(store)@, old(store).tracking(), t, b),
                }
            }
        }),
{
    let target = c.offset(face);
    if store.contains(target) {
        return (EditEffect::NoEffect, Vec::new());
    }
    match inv.selected_block() {
        None => (EditEffect::NoEffect, Vec::new()),
        Some(b) => {
            let (ok, intents) = store.insert(target, b);
            proof {
                assert(ok);
            }
            inv.remove_selected();
            (EditEffect::Placed(b), intents)
        },
    }
}

} // verus!
