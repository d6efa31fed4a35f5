use vstd::prelude::*;

use crate::block::block_id;
use crate::level::chunk::{all_air, Chunk};
use crate::level::generator::WorldGenerator;
use crate::registry::block_registry::BlockRegistry;

verus! {

/// Generates columns of air in one biome.
pub struct VoidGenerator {
    pub biome: i32,
}

impl WorldGenerator for VoidGenerator {
    /// Every sub-chunk is air, with the registry's air id and this biome.
    open spec fn produces(
        &self,
        registry: BlockRegistry,
        x: i32,
        z: i32,
        min_sub_chunk_y: i8,
        max_sub_chunk_y: i8,
        c: Chunk,
    ) -> bool {
        forall|i: int|
            0 <= i < c.sub_chunks().len() ==> {
                &&& all_air(#[trigger] c.sub_chunks()[i])
                &&& c.sub_chunks()[i].air() == match registry.lookup(block_id::AIR@) {
                    Some(id) => id,
                    None => 0,
                }
                &&& c.sub_chunks()[i].biome() == self.biome
            }
    }

    fn generate(
        &self,
        registry: &BlockRegistry,
        x: i32,
        z: i32,
        min_sub_chunk_y: i8,
        max_sub_chunk_y: i8,
    ) -> (r: Chunk) {
        let air_id = match registry.get_block_id(block_id::AIR) {
            Some(id) => id,
            None => 0,
        };
        let count = (max_sub_chunk_y as i32 - min_sub_chunk_y as i32 + 1) as usize;
        assert((air_id as u32) as i32 == air_id) by (bit_vector);
        let biome = self.biome;
        assert((biome as u32) as i32 == biome) by (bit_vector);
        Chunk::new(x, z, min_sub_chunk_y, count, air_id as u32, self.biome as u32)
    }
}

} // verus!
