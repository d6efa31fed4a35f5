pub mod chat;
pub mod chunks;
pub mod play;
pub mod request;
pub mod resource;
pub mod setup;
