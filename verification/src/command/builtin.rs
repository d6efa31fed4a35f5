pub mod debug;
pub mod dev;
pub mod form;
pub mod help;
pub mod ping;
