pub mod block_registry;
pub mod item_registry;
