//! The actor's inventory: 36 stack slots plus a selected-slot index.
//!
//! Items stack up to `spec_max_stack` per slot. `add_item` first tops up
//! existing stacks of the same kind in slot order, then opens new stacks in
//! empty slots; `remove_selected` takes one unit from the selected stack.
//! In a well-formed inventory every occupied slot holds between one unit
//! and a full stack; constructors establish this and methods preserve it.

use crate::block::{spec_max_stack, BlockType, ItemType};
use vstd::prelude::*;

verus! {

/// Number of slots an inventory has.
pub const SLOT_COUNT: usize = 36;

/// A stack of identical items in one slot.
#[derive(Clone, Copy, PartialEq, Eq, Structural, Debug)]
pub struct ItemStack {
    pub item_type: ItemType,
    pub count: u32,
}

/// Fixed array of item stacks with a selected slot.
pub struct Inventory {
    slots: Vec<Option<ItemStack>>,
    selected: usize,
}

/// One step of the stacking pass: top up `slot` with as much of the
/// remaining `n` as fits, if it already stacks `item`.
pub open spec fn stack_step(slot: Option<ItemStack>, item: ItemType, n: int) -> (
    Option<ItemStack>,
    int,
) {
    match slot {
        Some(st) => {
            if st.item_type == item {
                let room = spec_max_stack(item) - st.count;
                let can = if room < n {
                    room
                } else {
                    n
                };
                (Some(ItemStack { item_type: st.item_type, count: (st.count + can) as u32 }), n
                    - can)
            } else {
                (slot, n)
            }
        },
        None => (slot, n),
    }
}

/// The stacking pass from slot `i` on: slots and remaining count after
/// topping up every existing stack of `item` in slot order.
pub open spec fn fill_existing_from(
    s: Seq<Option<ItemStack>>,
    item: ItemType,
    n: int,
    i: int,
) -> (Seq<Option<ItemStack>>, int)
    decreases s.len() - i,
{
    if i < 0 || i >= s.len() || n <= 0 {
        (s, n)
    } else {
        let (slot2, n2) = stack_step(s[i], item, n);
        fill_existing_from(s.update(i, slot2), item, n2, i + 1)
    }
}

/// One step of the empty-slot pass: open a new stack of `item` in `slot`
/// if it is empty.
pub open spec fn empty_step(slot: Option<ItemStack>, item: ItemType, n: int) -> (
    Option<ItemStack>,
    int,
) {
    match slot {
        None => {
            let can = if n < spec_max_stack(item) {
                n
            } else {
                spec_max_stack(item) as int
            };
            (Some(ItemStack { item_type: item, count: can as u32 }), n - can)
        },
        Some(_) => (slot, n),
    }
}

/// The empty-slot pass from slot `i` on.
pub open spec fn fill_empty_from(s: Seq<Option<ItemStack>>, item: ItemType, n: int, i: int) -> (
    Seq<Option<ItemStack>>,
    int,
)
    decreases s.len() - i,
{
    if i < 0 || i >= s.len() || n <= 0 {
        (s, n)
    } else {
        let (slot2, n2) = empty_step(s[i], item, n);
        fill_empty_from(s.update(i, slot2), item, n2, i + 1)
    }
}

/// Slots and undistributed remainder after adding `n` units of `item`:
/// existing stacks are topped up first, then empty slots are filled.
pub open spec fn add_result(s: Seq<Option<ItemStack>>, item: ItemType, n: int) -> (
    Seq<Option<ItemStack>>,
    int,
) {
    let (s1, n1) = fill_existing_from(s, item, n, 0);
    fill_empty_from(s1, item, n1, 0)
}

/// The block kind in slot `sel`, if that slot stacks a placeable block.
pub open spec fn spec_selected_block(s: Seq<Option<ItemStack>>, sel: int) -> Option<BlockType> {
    match s[sel] {
        Some(st) => match st.item_type {
            ItemType::Block(b) => Some(b),
            _ => None,
        },
        None => None,
    }
}

/// The slots after one unit leaves slot `sel`: an emptied stack
/// disappears; an empty slot stays empty.
pub open spec fn consume_selected(s: Seq<Option<ItemStack>>, sel: int) -> Seq<Option<ItemStack>> {
    match s[sel] {
        Some(st) => s.update(
            sel,
            if st.count == 1 {
                None
            } else {
                Some(ItemStack { item_type: st.item_type, count: (st.count - 1) as u32 })
            },
        ),
        None => s,
    }
}

/// Some slot holds a stack of `item`.
pub open spec fn spec_has_item(s: Seq<Option<ItemStack>>, item: ItemType) -> bool {
    exists|i: int| 0 <= i < s.len() && (#[trigger] s[i] matches Some(st) && st.item_type == item)
}

/// The slot contents a fresh inventory starts with: dirt, stone and wood
/// stacks in the first three slots.
pub open spec fn initial_slots() -> Seq<Option<ItemStack>> {
    Seq::new(
        SLOT_COUNT as nat,
        |i: int|
            if i == 0 {
                Some(ItemStack { item_type: ItemType::Block(BlockType::Dirt), count: 64u32 })
            } else if i == 1 {
                Some(ItemStack { item_type: ItemType::Block(BlockType::Stone), count: 64u32 })
            } else if i == 2 {
                Some(ItemStack { item_type: ItemType::Block(BlockType::Wood), count: 32u32 })
            } else {
                None
            },
    )
}

impl Inventory {
    /// The inventory's internal invariant: exactly `SLOT_COUNT` slots, a
    /// selected slot that exists, and every stack holding between one unit
    /// and a full stack. Constructors establish it; methods keep it.
    pub closed spec fn well_formed(&self) -> bool {
        &&& self.slots@.len() == SLOT_COUNT
        &&& self.selected < SLOT_COUNT
        &&& forall|i: int|
            0 <= i < self.slots@.len() ==> (#[trigger] self.slots@[i] matches Some(st) ==> 1
                <= st.count <= spec_max_stack(st.item_type))
    }

    /// The slot contents.
    pub closed spec fn stacks(&self) -> Seq<Option<ItemStack>> {
        self.slots@
    }

    /// The index of the selected slot.
    pub closed spec fn selected_slot(&self) -> int {
        self.selected as int
    }

    /// A fresh inventory: a few starting stacks, slot 0 selected.
    pub fn new() -> (inv: Inventory)
        ensures
            inv.well_formed(),
            inv.stacks() =~= initial_slots(),
            inv.selected_slot() == 0,
    {
        let mut slots: Vec<Option<ItemStack>> = Vec::new();
        let mut i: usize = 0;
        while i < SLOT_COUNT
            invariant
                i <= SLOT_COUNT,
                slots@.len() == i,
                forall|j: int| 0 <= j < i ==> slots@[j] == None::<ItemStack>,
            decreases SLOT_COUNT - i,
        {
            slots.push(None);
            i = i + 1;
        }
        slots[0] = Some(ItemStack { item_type: ItemType::Block(BlockType::Dirt), count: 64 });
        slots[1] = Some(ItemStack { item_type: ItemType::Block(BlockType::Stone), count: 64 });
        slots[2] = Some(ItemStack { item_type: ItemType::Block(BlockType::Wood), count: 32 });
        let inv = Inventory { slots, selected: 0 };
        proof {
            assert(inv.stacks() =~= initial_slots());
        }
        inv
    }

    /// The number of slots, occupied or not.
    pub fn slot_count(&self) -> (r: usize)
        requires
            self.well_formed(),
        ensures
            r == SLOT_COUNT,
            self.stacks().len() == SLOT_COUNT,
    {
        SLOT_COUNT
    }

    /// The stack in slot `i`, if any.
    pub fn get_slot(&self, i: usize) -> (r: Option<ItemStack>)
        requires
            self.well_formed(),
            i < SLOT_COUNT,
        ensures
            r == self.stacks()[i as int],
    {
        self.slots[i]
    }

    /// The index of the selected slot.
    pub fn selected_index(&self) -> (r: usize)
        requires
            self.well_formed(),
        ensures
            r == self.selected_slot(),
            0 <= r < SLOT_COUNT,
    {
        self.selected
    }

    /// Select slot `i`.
    pub fn set_selected(&mut self, i: usize)
        requires
            old(self).well_formed(),
            i < SLOT_COUNT,
        ensures
            final(self).well_formed(),
            final(self).selected_slot() == i,
            final(self).stacks() == old(self).stacks(),
    {
        self.selected = i;
    }

    /// The block kind in the selected slot, if the selected stack holds a
    /// placeable block.
    pub fn selected_block(&self) -> (r: Option<BlockType>)
        requires
            self.well_formed(),
        ensures
            r == spec_selected_block(self.stacks(), self.selected_slot()),
    {
        match self.slots[self.selected] {
            Some(st) => match st.item_type {
                ItemType::Block(b) => Some(b),
                _ => None,
            },
            None => None,
        }
    }

    /// Whether some slot holds a stack of `item`.
    pub fn has_item(&self, item: ItemType) -> (r: bool)
        ensures
            r == spec_has_item(self.stacks(), item),
    {
        let n = self.slots.len();
        let mut i: usize = 0;
        while i < n
            invariant
                i <= n,
                n == self.slots@.len(),
                forall|j: int|
                    0 <= j < i ==> !(#[trigger] self.slots@[j] matches Some(st) && st.item_type
                        == item),
            decreases n - i,
        {
            match self.slots[i] {
                Some(st) => {
                    if st.item_type == item {
                        return true;
                    }
                },
                None => {},
            }
            i = i + 1;
        }
        false
    }

    /// Add `count` units of `item`: top up existing stacks of the same
    /// kind in slot order, then open new stacks in empty slots. Returns
    /// whether everything found room; whatever did not fit is discarded.
    pub fn add_item(&mut self, item: ItemType, count: u32) -> (r: bool)
        requires
            old(self).well_formed(),
        ensures
            final(self).well_formed(),
            final(self).stacks() =~= add_result(old(self).stacks(), item, count as int).0,
            r == (add_result(old(self).stacks(), item, count as int).1 == 0),
            final(self).selected_slot() == old(self).selected_slot(),
    {
        let ghost s0 = self.slots@;
        let mut rem: u32 = count;
        let mut i: usize = 0;
        while i < SLOT_COUNT && rem > 0
            invariant
                self.well_formed(),
                i <= SLOT_COUNT,
                rem <= count,
                self.selected == old(self).selected,
                fill_existing_from(s0, item, count as int, 0) == fill_existing_from(
                    self.slots@,
                    item,
                    rem as int,
                    i as int,
                ),
            decreases SLOT_COUNT - i,
        {
            let ghost pre = self.slots@;
            let ghost prem = rem as int;
            match self.slots[i] {
                Some(st) => {
                    if st.item_type == item {
                        let room: u32 = item.max_stack() - st.count;
                        let can: u32 = if room < rem {
                            room
                        } else {
                            rem
                        };
                        self.slots[i] = Some(
                            ItemStack { item_type: st.item_type, count: st.count + can },
                        );
                        rem = rem - can;
                    }
                },
                None => {},
            }
            proof {
                let step = stack_step(pre[i as int], item, prem);
                assert(self.slots@ =~= pre.update(i as int, step.0));
                assert(rem as int == step.1);
                assert(fill_existing_from(pre, item, prem, i as int) == fill_existing_from(
                    self.slots@,
                    item,
                    rem as int,
                    i as int + 1,
                ));
            }
            i = i + 1;
        }
        proof {
            assert(fill_existing_from(self.slots@, item, rem as int, i as int) == (
                self.slots@,
                rem as int,
            ));
        }
        let ghost s1 = self.slots@;
        let ghost n1 = rem as int;
        let mut j: usize = 0;
        while j < SLOT_COUNT && rem > 0
            invariant
                self.well_formed(),
                j <= SLOT_COUNT,
                self.selected == old(self).selected,
                fill_existing_from(s0, item, count as int, 0) == (s1, n1),
                fill_empty_from(s1, item, n1, 0) == fill_empty_from(
                    self.slots@,
                    item,
                    rem as int,
                    j as int,
                ),
            decreases SLOT_COUNT - j,
        {
            let ghost pre = self.slots@;
            let ghost prem = rem as int;
            match self.slots[j] {
                Some(_) => {},
                None => {
                    let cap: u32 = item.max_stack();
                    let can: u32 = if rem < cap {
                        rem
                    } else {
                        cap
                    };
                    self.slots[j] = Some(ItemStack { item_type: item, count: can });
                    rem = rem - can;
                },
            }
            proof {
                let step = empty_step(pre[j as int], item, prem);
                assert(self.slots@ =~= pre.update(j as int, step.0));
                assert(rem as int == step.1);
                assert(fill_empty_from(pre, item, prem, j as int) == fill_empty_from(
                    self.slots@,
                    item,
                    rem as int,
                    j as int + 1,
                ));
            }
            j = j + 1;
        }
        proof {
            assert(fill_empty_from(self.slots@, item, rem as int, j as int) == (
                self.slots@,
                rem as int,
            ));
        }
        rem == 0
    }

    /// Take one unit out of the selected stack; the stack disappears when
    /// its last unit goes. Returns whether anything was removed.
    pub fn remove_selected(&mut self) -> (r: bool)
        requires
            old(self).well_formed(),
        ensures
            final(self).well_formed(),
            final(self).selected_slot() == old(self).selected_slot(),
            match old(self).stacks()[old(self).selected_slot()] {
                None => r == false && final(self).stacks() =~= old(self).stacks(),
                Some(st) => r == true && final(self).stacks() =~= old(self).stacks().update(
                    old(self).selected_slot(),
                    if st.count == 1 {
                        None
                    } else {
                        Some(ItemStack { item_type: st.item_type, count: (st.count - 1) as u32 })
                    },
                ),
            },
    {
        match self.slots[self.selected] {
            Some(st) => {
                if st.count == 1 {
                    self.slots[self.selected] = None;
                } else {
                    self.slots[self.selected] = Some(
                        ItemStack { item_type: st.item_type, count: st.count - 1 },
                    );
                }
                true
            },
            None => false,
        }
    }
}

} // verus!
