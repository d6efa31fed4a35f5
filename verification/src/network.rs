pub mod handler;
pub mod session;
