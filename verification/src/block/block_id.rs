use vstd::prelude::*;

verus! {

/// The identifier of the air block.
pub const AIR: &'static str = "minecraft:air";

} // verus!
