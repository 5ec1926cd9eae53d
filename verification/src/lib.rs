//! Core logic of a voxel world: a sparse store of unit blocks on the integer
//! lattice, an axis-by-axis collision resolver for box-shaped actors, a DDA
//! ray traversal for picking the aimed-at block, and a world editor that
//! breaks and places blocks against an inventory.
//!
//! Continuous quantities (positions, velocities, time steps) are carried as
//! fixed-point integers in thousandths of a world unit, so that every
//! computation is exact and fully specified.

pub mod block;
pub mod collide;
pub mod coord;
pub mod editor;
pub mod fixed;
pub mod inventory;
pub mod laws;
pub mod raycast;
pub mod simulation;
pub mod store;

pub use block::BlockType;
pub use block::ItemType;
pub use collide::{overlaps, resolve, Aabb, GRAVITY};
pub use coord::Coord;
pub use editor::{break_block, place_block, EditEffect};
pub use fixed::{Vec3Fix, SCALE};
pub use inventory::{Inventory, ItemStack};
pub use raycast::{cast, RaycastHit};
pub use simulation::{tick, EditRequest, TickOutcome};
pub use store::{ProxyIntent, VoxelStore};
