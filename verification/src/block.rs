//! Block and item kinds.

use vstd::prelude::*;

verus! {

/// The closed set of block kinds a cell can hold.
#[derive(Clone, Copy, PartialEq, Eq, Structural, Hash, Debug)]
pub enum BlockType {
    Grass,
    Dirt,
    Stone,
    Wood,
    Leaves,
}

/// Everything an inventory stack can carry: placeable blocks plus the few
/// non-block items dropped by the world.
#[derive(Clone, Copy, PartialEq, Eq, Structural, Hash, Debug)]
pub enum ItemType {
    Block(BlockType),
    RawPork,
    Wool,
    RottenFlesh,
    Stick,
    WoodPickaxe,
}

/// Largest count a single inventory stack of this item may hold.
pub open spec fn spec_max_stack(item: ItemType) -> u32 {
    match item {
        ItemType::WoodPickaxe => 1u32,
        _ => 64u32,
    }
}

impl ItemType {
    /// Largest count a single inventory stack of this item may hold.
    pub fn max_stack(&self) -> (r: u32)
        ensures
            r == spec_max_stack(*self),
    {
        match self {
            ItemType::WoodPickaxe => 1,
            _ => 64,
        }
    }

    /// Human-readable name of the item.
    pub fn display_name(&self) -> &'static str {
        match self {
            ItemType::Block(BlockType::Grass) => "Grass",
            ItemType::Block(BlockType::Dirt) => "Dirt",
            ItemType::Block(BlockType::Stone) => "Stone",
            ItemType::Block(BlockType::Wood) => "Wood",
            ItemType::Block(BlockType::Leaves) => "Leaves",
            ItemType::RawPork => "Raw Pork",
            ItemType::Wool => "Wool",
            ItemType::RottenFlesh => "Rotten Flesh",
            ItemType::Stick => "Stick",
            ItemType::WoodPickaxe => "Wood Pickaxe",
        }
    }
}

} // verus!
