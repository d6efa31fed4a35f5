use vstd::prelude::*;

use crate::level::chunk::{local_y_of, sub_chunk_slot, sub_y_of, Chunk};
use crate::level::generator::WorldGenerator;
use crate::level::sub_chunk::{block_index, PALETTE_SIZE};
use crate::registry::block_registry::BlockRegistry;

verus! {

/// The block id that counts as air for `registry`: the default hash of
/// `minecraft:air`, or 0 when it is not registered.
pub open spec fn air_id_in(registry: BlockRegistry) -> i32 {
    match registry.lookup("minecraft:air"@) {
        Some(id) => id,
        None => 0,
    }
}

/// Whether `v` is the default hash of a registered block, or 0 when no
/// block is registered.
pub open spec fn registered_or_zero(registry: BlockRegistry, v: i32) -> bool {
    if registry.is_empty() {
        v == 0
    } else {
        exists|name: Seq<char>| #[trigger]
            registry.default_hashes().contains_key(name) && registry.default_hashes()[name] == v
    }
}

/// Whether entry `j` of a sub-chunk layer lies at local height 0.
pub open spec fn on_floor(j: int) -> bool {
    j % 16 == 0
}

/// Generates columns of air whose bottom layer at height 0 is filled with
/// randomly chosen registered blocks.
pub struct RandomGenerator {
    pub biome: i32,
}

impl WorldGenerator for RandomGenerator {
    /// Every sub-chunk has this biome and the registry's air id; the blocks
    /// of layer 0 at height 0 are registered ones (0 when none is), and
    /// every other block is air.
    open spec fn produces(
        &self,
        registry: BlockRegistry,
        x: i32,
        z: i32,
        min_sub_chunk_y: i8,
        max_sub_chunk_y: i8,
        c: Chunk,
    ) -> bool {
        &&& forall|i: int|
            0 <= i < c.sub_chunks().len() ==> {
                &&& (#[trigger] c.sub_chunks()[i]).biome() == self.biome
                &&& c.sub_chunks()[i].air() == air_id_in(registry)
            }
        &&& forall|i: int, l: int, j: int|
            0 <= i < c.sub_chunks().len() && 0 <= l < 2 && 0 <= j < PALETTE_SIZE ==> if i
                == sub_chunk_slot(min_sub_chunk_y, 0i8) && l == 0 && on_floor(j) {
                registered_or_zero(registry, #[trigger] c.sub_chunks()[i].layer(l)[j])
            } else {
                c.sub_chunks()[i].layer(l)[j] == air_id_in(registry)
            }
    }

    fn generate(
        &self,
        registry: &BlockRegistry,
        x: i32,
        z: i32,
        min_sub_chunk_y: i8,
        max_sub_chunk_y: i8,
    ) -> (r: Chunk) {
        let air_id = match registry.get_block_id("minecraft:air") {
            Some(id) => id,
            None => 0,
        };
        let count = (max_sub_chunk_y as i32 - min_sub_chunk_y as i32 + 1) as usize;
        assert((air_id as u32) as i32 == air_id) by (bit_vector);
        let biome = self.biome;
        assert((biome as u32) as i32 == biome) by (bit_vector);
        let mut chunk = Chunk::new(x, z, min_sub_chunk_y, count, air_id as u32, self.biome as u32);
        let ghost slot = sub_chunk_slot(min_sub_chunk_y, 0i8);
        assert(((0i32 >> 4i32) as i8) == 0i8 && ((0i32 & 15i32) as u8) == 0u8) by (bit_vector);
        assert(sub_y_of(0) == 0i8 && local_y_of(0) == 0u8);
        let mut lx: u8 = 0;
        while lx < 16
            invariant
                lx <= 16,
                registry.wf(),
                chunk.wf(),
                chunk.position() == (x, z),
                chunk.min_y() == min_sub_chunk_y,
                chunk.sub_chunks().len() == count,
                count == max_sub_chunk_y - min_sub_chunk_y + 1,
                slot == sub_chunk_slot(min_sub_chunk_y, 0i8),
                sub_y_of(0) == 0i8,
                local_y_of(0) == 0u8,
                air_id == air_id_in(*registry),
                slot < count ==> chunk.sub_chunks()[slot].palette_len(0) <= 1 + 16 * lx,
                forall|i: int|
                    0 <= i < chunk.sub_chunks().len() ==> {
                        &&& (#[trigger] chunk.sub_chunks()[i]).biome() == self.biome
                        &&& chunk.sub_chunks()[i].air() == air_id
                    },
                forall|i: int, l: int, j: int|
                    0 <= i < chunk.sub_chunks().len() && 0 <= l < 2 && 0 <= j < PALETTE_SIZE ==> if i
                        == slot && l == 0 && on_floor(j) && j / 16 < 16 * lx {
                        registered_or_zero(*registry, #[trigger] chunk.sub_chunks()[i].layer(l)[j])
                    } else {
                        chunk.sub_chunks()[i].layer(l)[j] == air_id
                    },
            decreases 16 - lx,
        {
            let mut lz: u8 = 0;
            while lz < 16
                invariant
                    lx < 16,
                    lz <= 16,
                    registry.wf(),
                    chunk.wf(),
                    chunk.position() == (x, z),
                    chunk.min_y() == min_sub_chunk_y,
                    chunk.sub_chunks().len() == count,
                    count == max_sub_chunk_y - min_sub_chunk_y + 1,
                    slot == sub_chunk_slot(min_sub_chunk_y, 0i8),
                    sub_y_of(0) == 0i8,
                    local_y_of(0) == 0u8,
                    air_id == air_id_in(*registry),
                    slot < count ==> chunk.sub_chunks()[slot].palette_len(0) <= 1 + 16 * lx + lz,
                    forall|i: int|
                        0 <= i < chunk.sub_chunks().len() ==> {
                            &&& (#[trigger] chunk.sub_chunks()[i]).biome() == self.biome
                            &&& chunk.sub_chunks()[i].air() == air_id
                        },
                    forall|i: int, l: int, j: int|
                        0 <= i < chunk.sub_chunks().len() && 0 <= l < 2 && 0 <= j < PALETTE_SIZE ==> if i
                            == slot && l == 0 && on_floor(j) && j / 16 < 16 * lx + lz {
                            registered_or_zero(*registry, #[trigger] chunk.sub_chunks()[i].layer(l)[j])
                        } else {
                            chunk.sub_chunks()[i].layer(l)[j] == air_id
                        },
                decreases 16 - lz,
            {
                let block = registry.get_random();
                let ghost before = chunk;
                chunk.set_block(lx, 0, lz, 0, block);
                proof {
                    let k = block_index(lx as int, 0, lz as int);
                    assert(k == lx * 256 + lz * 16);
                    assert(k % 16 == 0 && k / 16 == 16 * lx + lz) by (nonlinear_arith)
                        requires
                            k == lx * 256 + lz * 16,
                            lz < 16,
                    ;
                    assert(registered_or_zero(*registry, block as i32));
                    assert forall|i: int, l: int, j: int|
                        0 <= i < chunk.sub_chunks().len() && 0 <= l < 2 && 0 <= j < PALETTE_SIZE implies (if i
                            == slot && l == 0 && on_floor(j) && j / 16 < 16 * lx + lz + 1 {
                            registered_or_zero(*registry, #[trigger] chunk.sub_chunks()[i].layer(l)[j])
                        } else {
                            chunk.sub_chunks()[i].layer(l)[j] == air_id
                        }) by {
                        let old_value = before.sub_chunks()[i].layer(l)[j];
                        let new_value = chunk.sub_chunks()[i].layer(l)[j];
                        let written = i == slot && l == 0 && on_floor(j) && j / 16 < 16 * lx + lz;
                        assert(written ==> registered_or_zero(*registry, old_value));
                        assert(!written ==> old_value == air_id);
                        if slot < count && i == slot && l == 0 {
                            before.sub_chunks()[i].lemma_layer_len(0);
                            assert(k < PALETTE_SIZE) by (nonlinear_arith)
                                requires
                                    k == lx * 256 + lz * 16,
                                    lx < 16,
                                    lz < 16,
                            ;
                            assert(chunk.sub_chunks()[i].layer(0) == before.sub_chunks()[i].layer(0).update(
                                k,
                                block as i32,
                            ));
                            if j == k {
                                assert(new_value == block as i32);
                            } else {
                                assert(new_value == old_value);
                                assert(on_floor(j) && j / 16 < 16 * lx + lz + 1 ==> j / 16 < 16 * lx
                                    + lz) by (nonlinear_arith)
                                    requires
                                        j != k,
                                        k % 16 == 0,
                                        k / 16 == 16 * lx + lz,
                                        on_floor(j) ==> j % 16 == 0,
                                        0 <= j,
                                ;
                            }
                        } else if slot < count && i == slot {
                            assert(l == 1);
                            assert(chunk.sub_chunks()[i].layer(1) == before.sub_chunks()[i].layer(1));
                            assert(new_value == old_value);
                        } else {
                            assert(chunk.sub_chunks()[i] == before.sub_chunks()[i]);
                            assert(new_value == old_value);
                        }
                    }
                    assert forall|i: int| 0 <= i < chunk.sub_chunks().len() implies {
                        &&& (#[trigger] chunk.sub_chunks()[i]).biome() == self.biome
                        &&& chunk.sub_chunks()[i].air() == air_id
                    } by {
                        if !(slot < count && i == slot) {
                            assert(chunk.sub_chunks()[i] == before.sub_chunks()[i]);
                        }
                    }
                }
                lz = lz + 1;
            }
            lx = lx + 1;
        }
        chunk
    }
}

} // verus!
