use vstd::prelude::*;

use crate::level::chunk::Chunk;
use crate::registry::block_registry::BlockRegistry;

pub mod random;
pub mod void;

verus! {

/// Makes the chunk at a position when a dimension first needs it.
pub trait WorldGenerator: Send + Sync {
    /// Whether `c` is a chunk this generator may make at `(x, z)` for heights
    /// `min_sub_chunk_y..=max_sub_chunk_y` with the blocks of `registry`.
    spec fn produces(
        &self,
        registry: BlockRegistry,
        x: i32,
        z: i32,
        min_sub_chunk_y: i8,
        max_sub_chunk_y: i8,
        c: Chunk,
    ) -> bool;

    fn generate(
        &self,
        registry: &BlockRegistry,
        x: i32,
        z: i32,
        min_sub_chunk_y: i8,
        max_sub_chunk_y: i8,
    ) -> (r: Chunk)
        requires
            registry.wf(),
            min_sub_chunk_y as int <= max_sub_chunk_y as int + 1,
        ensures
            r.wf(),
            r.position() == (x, z),
            r.min_y() == min_sub_chunk_y,
            r.sub_chunks().len() == max_sub_chunk_y - min_sub_chunk_y + 1,
            self.produces(*registry, x, z, min_sub_chunk_y, max_sub_chunk_y, r),
    ;
}

} // verus!
