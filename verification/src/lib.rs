pub mod block;
pub mod codec;
pub mod command;
pub mod hash_map_access;
pub mod index_set;
pub mod item;
pub mod level;
pub mod name_index;
pub mod network;
pub mod player;
pub mod random;
pub mod registry;
pub mod server;
pub mod sort;
pub mod text;
