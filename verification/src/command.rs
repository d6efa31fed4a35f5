pub mod builtin;
pub mod command;
pub mod registry;
