pub mod item_stack;
