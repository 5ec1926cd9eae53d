//! The per-frame simulation pipeline, as one explicitly ordered function:
//! integrate the actor's motion against the store, cast the view ray from
//! the resolved position to find the targeted block, and apply the
//! requested world edit to that target. Nothing else orders these steps;
//! a caller runs `tick` once per frame and forwards the returned proxy
//! requests to its renderer.

use crate::block::{BlockType, ItemType};
use crate::collide::{
    aabb_ok, resolve, resolve_spec, vec_within, Aabb, DT_LIMIT, EXTENT_LIMIT, POS_LIMIT, VEL_LIMIT,
};
use crate::editor::{break_block, break_intents, place_block, target_of, EditEffect};
use crate::fixed::Vec3Fix;
use crate::inventory::{add_result, consume_selected, spec_selected_block, Inventory};
use crate::raycast::{cast, cast_spec, RaycastHit, RAY_DIR_LIMIT, RAY_STEP_LIMIT};
use crate::coord::Coord;
use crate::inventory::ItemStack;
use crate::store::{insert_intents, ProxyIntent, VoxelStore};
use vstd::prelude::*;

verus! {

/// The edit step changed nothing: same store map, same inventory slots,
/// no effect, no proxy requests.
pub open spec fn edit_left_alone(
    m_old: Map<Coord, BlockType>,
    m_new: Map<Coord, BlockType>,
    s_old: Seq<Option<ItemStack>>,
    s_new: Seq<Option<ItemStack>>,
    effect: EditEffect,
    intents: Seq<ProxyIntent>,
) -> bool {
    effect == EditEffect::NoEffect && m_new == m_old && s_new == s_old && intents
        =~= Seq::<ProxyIntent>::empty()
}

/// The world edit an actor asked for this frame.
#[derive(Clone, Copy, PartialEq, Eq, Structural, Debug)]
pub enum EditRequest {
    NoEdit,
    BreakTargeted,
    PlaceSelected,
}

/// Everything one simulation frame produces: the actor's new state, the
/// block in its aim, the effect of the requested edit, and the proxy
/// requests for the renderer.
#[derive(Debug)]
pub struct TickOutcome {
    pub pos: Vec3Fix,
    pub vel: Vec3Fix,
    pub grounded: bool,
    pub target: Option<RaycastHit>,
    pub effect: EditEffect,
    pub proxy_intents: Vec<ProxyIntent>,
}

/// Run one simulation frame in the fixed order: collision resolution for
/// the actor's box, then the view raycast from the resolved position
/// (raised by `eye_offset`), then the requested edit against the targeted
/// block.
pub fn tick(
    store: &mut VoxelStore,
    inv: &mut Inventory,
    aabb: Aabb,
    pos: Vec3Fix,
    vel: Vec3Fix,
    dt: i64,
    gravity: i64,
    eye_offset: i64,
    look: Vec3Fix,
    max_steps: u32,
    edit: EditRequest,
) -> (r: TickOutcome)
    requires
        vec_within(pos, POS_LIMIT as int),
        vec_within(vel, VEL_LIMIT as int),
        0 <= dt <= DT_LIMIT,
        -VEL_LIMIT <= gravity <= VEL_LIMIT,
        aabb_ok(aabb),
        -EXTENT_LIMIT <= eye_offset <= EXTENT_LIMIT,
        vec_within(look, RAY_DIR_LIMIT as int),
        max_steps <= RAY_STEP_LIMIT,
        old(inv).well_formed(),
    ensures
        final(inv).well_formed(),
        final(store).tracking() == old(store).tracking(),
        final(inv).selected_slot() == old(inv).selected_slot(),
        ({
            let out = resolve_spec(old(store)@, aabb, pos, vel, dt as int, gravity as int);
            r.pos.x == out.px && r.pos.y == out.py && r.pos.z == out.pz && r.vel.x == out.vx
                && r.vel.y == out.vy && r.vel.z == out.vz && r.grounded == out.grounded
        }),
        ({
            let out = resolve_spec(old(store)@, aabb, pos, vel, dt as int, gravity as int);
            let origin = (Vec3Fix {
                x: out.px as i64,
                y: (out.py + eye_offset) as i64,
                z: out.pz as i64,
            });
            r.target == cast_spec(old(store)@, origin, look, max_steps as nat)
        }),
        ({
            match (edit, r.target) {
                (EditRequest::BreakTargeted, Some(h)) => {
                    if old(store)@.dom().contains(h.coord) {
                        let b = old(store)@[h.coord];
                        r.effect == EditEffect::Broken(b)
                            && final(store)@ == old(store)@.remove(h.coord)
                            && final(inv).stacks() =~= add_result(
                            old(inv).stacks(),
                            ItemType::Block(b),
                            1,
                        ).0 && r.proxy_intents@ =~= break_intents(
                            old(store)@,
                            old(store).tracking(),
                            h.coord,
                        )
                    } else {
                        edit_left_alone(
                            old(store)@,
                            final(store)@,
                            old(inv).stacks(),
                            final(inv).stacks(),
                            r.effect,
                            r.proxy_intents@,
                        )
                    }
                },
                (EditRequest::PlaceSelected, Some(h)) => {
                    let t = target_of(h.coord, h.normal);
                    let sel = old(inv).selected_slot();
                    if old(store)@.dom().contains(t) {
                        edit_left_alone(
                            old(store)@,
                            final(store)@,
                            old(inv).stacks(),
                            final(inv).stacks(),
                            r.effect,
                            r.proxy_intents@,
                        )
                    } else {
                        match spec_selected_block(old(inv).stacks(), sel) {
                            None => edit_left_alone(
                                old(store)@,
                                final(store)@,
                                old(inv).stacks(),
                                final(inv).stacks(),
                                r.effect,
                                r.proxy_intents@,
                            ),
                            Some(b) => r.effect == EditEffect::Placed(b)
                                && final(store)@ == old(store)@.insert(t, b)
                                && final(inv).stacks() =~= consume_selected(
                                old(inv).stacks(),
                                sel,
                            ) && r.proxy_intents@ =~= insert_intents(
                                old(store)@,
                                old(store).tracking(),
                                t,
                                b,
                            ),
                        }
                    }
                },
                _ => edit_left_alone(
                    old(store)@,
                    final(store)@,
                    old(inv).stacks(),
                    final(inv).stacks(),
                    r.effect,
                    r.proxy_intents@,
                ),
            }
        }),
{
    let (new_pos, new_vel, grounded) = resolve(store, aabb, pos, vel, dt, gravity);
    let origin = Vec3Fix { x: new_pos.x, y: new_pos.y + eye_offset, z: new_pos.z };
    let target = cast(store, origin, look, max_steps);
    let (effect, proxy_intents) = match (edit, target) {
        (EditRequest::BreakTargeted, Some(h)) => break_block(store, inv, h.coord),
        (EditRequest::PlaceSelected, Some(h)) => place_block(store, inv, h.coord, h.normal),
        _ => (EditEffect::NoEffect, Vec::new()),
    };
    TickOutcome { pos: new_pos, vel: new_vel, grounded, target, effect, proxy_intents }
}

} // verus!
