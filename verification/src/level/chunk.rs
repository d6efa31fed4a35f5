use vstd::prelude::*;

use crate::codec::{u32_varint, write_u32_varint};
use crate::level::sub_chunk::{block_index, SubChunk, PALETTE_SIZE};

verus! {

/// The position in the column of the sub-chunk at height `sub_y`, for a column
/// that starts at `min`: the difference taken in `i8`, then read as an
/// unsigned index (a negative difference reads as a huge one).
pub open spec fn sub_chunk_slot(min: i8, sub_y: i8) -> int {
    (sub_y.wrapping_sub(min) as usize) as int
}

/// Distinct heights give distinct positions in the column.
pub proof fn lemma_slot_injective(min: i8, a: i8, b: i8)
    ensures
        sub_chunk_slot(min, a) == sub_chunk_slot(min, b) ==> a == b,
{
    let da = a.wrapping_sub(min);
    let db = b.wrapping_sub(min);
    assert(da as usize == db as usize ==> da == db) by (bit_vector);
}

/// Heights inside a sub-chunk lie below 16.
pub proof fn lemma_local_y_bound(y: i32)
    ensures
        local_y_of(y) < 16,
{
    assert(((y & 15i32) as u8) < 16) by (bit_vector);
}

/// The sub-chunk height of block height `y`.
pub open spec fn sub_y_of(y: i32) -> i8 {
    (y >> 4i32) as i8
}

/// The height of block height `y` inside its sub-chunk.
pub open spec fn local_y_of(y: i32) -> u8 {
    (y & 15i32) as u8
}

/// Whether every block of both layers of `sc` is air.
pub open spec fn all_air(sc: SubChunk) -> bool {
    forall|l: int, i: int| 0 <= l < 2 && 0 <= i < PALETTE_SIZE ==> #[trigger] sc.layer(l)[i] == sc.air()
}

/// The position of the highest sub-chunk of `scs` that holds a non-air block.
pub open spec fn highest_non_air(scs: Seq<SubChunk>) -> Option<int>
    decreases scs.len(),
{
    if scs.len() == 0 {
        None
    } else if !all_air(scs.last()) {
        Some(scs.len() - 1)
    } else {
        highest_non_air(scs.drop_last())
    }
}

/// The height found by `highest_non_air` is a position of `scs`.
pub proof fn lemma_highest_non_air_bound(scs: Seq<SubChunk>)
    ensures
        highest_non_air(scs) matches Some(i) ==> 0 <= i < scs.len(),
    decreases scs.len(),
{
    if scs.len() > 0 && all_air(scs.last()) {
        lemma_highest_non_air_bound(scs.drop_last());
    }
}

/// The biome bytes of the sub-chunks of `scs`: for each, a header byte and
/// its biome as an unsigned varint.
pub open spec fn biome_entries(scs: Seq<SubChunk>) -> Seq<u8>
    decreases scs.len(),
{
    if scs.len() == 0 {
        Seq::empty()
    } else {
        biome_entries(scs.drop_last()) + seq![1u8] + u32_varint((scs.last().biome() as u32) as nat)
    }
}

/// A column of sub-chunks at chunk position `(x, z)`, the lowest at height
/// `min_sub_chunk_y`.
pub struct Chunk {
    pub x: i32,
    pub z: i32,
    sub_chunks: Vec<SubChunk>,
    min_sub_chunk_y: i8,
}

impl Chunk {
    /// The sub-chunks, lowest first.
    pub closed spec fn sub_chunks(&self) -> Seq<SubChunk> {
        self.sub_chunks@
    }

    /// The chunk position `(x, z)`.
    pub closed spec fn position(&self) -> (i32, i32) {
        (self.x, self.z)
    }

    /// The height of the lowest sub-chunk.
    pub closed spec fn min_y(&self) -> i8 {
        self.min_sub_chunk_y
    }

    pub closed spec fn wf(&self) -> bool {
        forall|i: int| 0 <= i < self.sub_chunks@.len() ==> (#[trigger] self.sub_chunks@[i]).wf()
    }

    /// Whether the column holds a sub-chunk at height `sub_y`.
    pub open spec fn has_sub_chunk(&self, sub_y: i8) -> bool {
        sub_chunk_slot(self.min_y(), sub_y) < self.sub_chunks().len()
    }

    /// The sub-chunk at height `sub_y`; meaningful when `has_sub_chunk`.
    pub open spec fn sub_chunk_at(&self, sub_y: i8) -> SubChunk {
        self.sub_chunks()[sub_chunk_slot(self.min_y(), sub_y)]
    }

    /// The block id at `(x, y, z)` in `layer`, if the column reaches height `y`.
    pub open spec fn block_at(&self, x: u8, y: i32, z: u8, layer: int) -> Option<u32> {
        if self.has_sub_chunk(sub_y_of(y)) {
            Some(
                (self.sub_chunk_at(sub_y_of(y)).layer(layer)[block_index(
                    x as int,
                    local_y_of(y) as int,
                    z as int,
                )]) as u32,
            )
        } else {
            None
        }
    }

    /// Every sub-chunk of a well-formed column is well formed.
    pub proof fn lemma_sub_chunk_wf(&self, sub_y: i8)
        requires
            self.wf(),
            self.has_sub_chunk(sub_y),
        ensures
            self.sub_chunk_at(sub_y).wf(),
    {
    }

    /// A column of `count` sub-chunks of air in the given biome.
    pub fn new(x: i32, z: i32, min_sub_chunk_y: i8, count: usize, air_id: u32, biome: u32) -> (r:
        Self)
        ensures
            r.wf(),
            r.position() == (x, z),
            r.min_y() == min_sub_chunk_y,
            r.sub_chunks().len() == count,
            forall|i: int|
                0 <= i < count ==> {
                    &&& (#[trigger] r.sub_chunks()[i]).air() == air_id as i32
                    &&& r.sub_chunks()[i].biome() == biome as i32
                    &&& r.sub_chunks()[i].palette_len(0) == 1
                    &&& r.sub_chunks()[i].palette_len(1) == 1
                    &&& all_air(r.sub_chunks()[i])
                },
    {
        let mut sub_chunks: Vec<SubChunk> = Vec::new();
        let mut i: usize = 0;
        while i < count
            invariant
                i <= count,
                sub_chunks@.len() == i,
                forall|j: int|
                    0 <= j < i ==> {
                        &&& (#[trigger] sub_chunks@[j]).wf()
                        &&& sub_chunks@[j].air() == air_id as i32
                        &&& sub_chunks@[j].biome() == biome as i32
                        &&& sub_chunks@[j].palette_len(0) == 1
                        &&& sub_chunks@[j].palette_len(1) == 1
                        &&& all_air(sub_chunks@[j])
                    },
            decreases count - i,
        {
            sub_chunks.push(SubChunk::new(air_id as i32, biome as i32));
            i = i + 1;
        }
        Self { x, z, sub_chunks, min_sub_chunk_y }
    }

    fn sub_chunk_offset(&self, sub_y: i8) -> (r: usize)
        ensures
            r as int == sub_chunk_slot(self.min_y(), sub_y),
    {
        sub_y.wrapping_sub(self.min_sub_chunk_y) as usize
    }

    pub fn get_sub_chunk(&self, sub_y: i8) -> (r: Option<&SubChunk>)
        ensures
            self.has_sub_chunk(sub_y) ==> r == Some(&self.sub_chunk_at(sub_y)),
            !self.has_sub_chunk(sub_y) ==> r is None,
    {
        let offset = self.sub_chunk_offset(sub_y);
        if offset < self.sub_chunks.len() {
            Some(&self.sub_chunks[offset])
        } else {
            None
        }
    }

    pub fn get_sub_chunk_mut(&mut self, sub_y: i8) -> (r: Option<&mut SubChunk>)
        ensures
            old(self).has_sub_chunk(sub_y) ==> {
                &&& r is Some
                &&& *r.unwrap() == old(self).sub_chunk_at(sub_y)
                &&& final(self).sub_chunks() == old(self).sub_chunks().update(
                    sub_chunk_slot(old(self).min_y(), sub_y),
                    *final(r.unwrap()),
                )
            },
            !old(self).has_sub_chunk(sub_y) ==> r is None && *final(self) == *old(self),
            final(self).min_y() == old(self).min_y(),
            final(self).position() == old(self).position(),
    {
        let offset = self.sub_chunk_offset(sub_y);
        if offset < self.sub_chunks.len() {
            Some(&mut self.sub_chunks[offset])
        } else {
            None
        }
    }

    pub fn get_block(&self, x: u8, y: i32, z: u8, layer: usize) -> (r: Option<u32>)
        requires
            self.wf(),
            self.has_sub_chunk(sub_y_of(y)) ==> x < 16 && z < 16 && layer < 2,
        ensures
            r == self.block_at(x, y, z, layer as int),
    {
        let sub_y = (y >> 4) as i8;
        let local_y = (y & 0xF) as u8;
        assert(local_y < 16) by (bit_vector)
            requires
                local_y == (y & 0xF) as u8,
        ;
        let sc = self.get_sub_chunk(sub_y)?;
        Some(sc.get(x, local_y, z, layer) as u32)
    }

    pub fn set_block(&mut self, x: u8, y: i32, z: u8, layer: usize, block_id: u32) -> (r: bool)
        requires
            old(self).wf(),
            old(self).has_sub_chunk(sub_y_of(y)) ==> {
                &&& x < 16
                &&& z < 16
                &&& layer < 2
                &&& old(self).sub_chunk_at(sub_y_of(y)).can_store(layer as int, block_id as i32)
            },
        ensures
            final(self).wf(),
            r == old(self).has_sub_chunk(sub_y_of(y)),
            final(self).position() == old(self).position(),
            final(self).min_y() == old(self).min_y(),
            final(self).sub_chunks().len() == old(self).sub_chunks().len(),
            !r ==> *final(self) == *old(self),
            r ==> {
                let slot = sub_chunk_slot(old(self).min_y(), sub_y_of(y));
                let before = old(self).sub_chunks()[slot];
                let after = final(self).sub_chunks()[slot];
                &&& final(self).sub_chunks() == old(self).sub_chunks().update(slot, after)
                &&& after.air() == before.air()
                &&& after.biome() == before.biome()
                &&& after.layer(layer as int) == before.layer(layer as int).update(
                    block_index(x as int, local_y_of(y) as int, z as int),
                    block_id as i32,
                )
                &&& after.layer(1 - layer) == before.layer(1 - layer)
                &&& after.palette_len(layer as int) <= before.palette_len(layer as int) + 1
                &&& after.palette_len(1 - layer) == before.palette_len(1 - layer)
            },
            r ==> final(self).block_at(x, y, z, layer as int) == Some(block_id),
            forall|x2: u8, y2: i32, z2: u8, l2: int|
                #![trigger final(self).block_at(x2, y2, z2, l2)]
                x2 < 16 && z2 < 16 && 0 <= l2 < 2 && !(x2 == x && z2 == z && l2 == layer
                    && sub_y_of(y2) == sub_y_of(y) && local_y_of(y2) == local_y_of(y))
                    ==> final(self).block_at(x2, y2, z2, l2) == old(self).block_at(x2, y2, z2, l2),
    {
        let sub_y = (y >> 4) as i8;
        let local_y = (y & 0xF) as u8;
        assert(local_y < 16) by (bit_vector)
            requires
                local_y == (y & 0xF) as u8,
        ;
        let r = match self.get_sub_chunk_mut(sub_y) {
            Some(sc) => {
                sc.set(x, local_y, z, layer, block_id as i32);
                true
            },
            None => false,
        };
        proof {
            assert((block_id as i32) as u32 == block_id) by (bit_vector);
            lemma_local_y_bound(y);
            let slot = sub_chunk_slot(old(self).min_y(), sub_y_of(y));
            let bi = block_index(x as int, local_y_of(y) as int, z as int);
            if r {
                let after = self.sub_chunks()[slot];
                old(self).sub_chunks()[slot].lemma_layer_len(layer as int);
                assert(after.layer(layer as int)[bi] == block_id as i32);
                assert(self.sub_chunk_at(sub_y_of(y)) == after);
            }
            assert forall|x2: u8, y2: i32, z2: u8, l2: int|
                x2 < 16 && z2 < 16 && 0 <= l2 < 2 && !(x2 == x && z2 == z && l2 == layer
                    && sub_y_of(y2) == sub_y_of(y) && local_y_of(y2) == local_y_of(y))
                implies #[trigger] self.block_at(x2, y2, z2, l2) == old(self).block_at(x2, y2, z2, l2) by {
                lemma_slot_injective(old(self).min_y(), sub_y_of(y), sub_y_of(y2));
                lemma_local_y_bound(y2);
                let slot2 = sub_chunk_slot(old(self).min_y(), sub_y_of(y2));
                let bi2 = block_index(x2 as int, local_y_of(y2) as int, z2 as int);
                if r && slot2 == slot {
                    let before = old(self).sub_chunks()[slot];
                    let after = self.sub_chunks()[slot];
                    if l2 == layer {
                        before.lemma_layer_len(l2);
                        assert(bi2 != bi);
                        assert(after.layer(l2)[bi2] == before.layer(l2)[bi2]);
                    } else {
                        assert(l2 == 1 - layer);
                        assert(after.layer(l2) == before.layer(l2));
                    }
                }
            }
        }
        r
    }

    /// The height of the highest sub-chunk that holds a non-air block, or the
    /// lowest height when all are air.
    pub fn highest_non_air_sub_chunk_y(&self) -> (r: i8)
        requires
            self.wf(),
        ensures
            r == match highest_non_air(self.sub_chunks()) {
                Some(i) => self.min_y().wrapping_add(i as i8),
                None => self.min_y(),
            },
    {
        let mut i = self.sub_chunks.len();
        assert(self.sub_chunks().take(i as int) =~= self.sub_chunks());
        while i > 0
            invariant
                self.wf(),
                i <= self.sub_chunks@.len(),
                highest_non_air(self.sub_chunks()) == highest_non_air(self.sub_chunks().take(i as int)),
            decreases i,
        {
            let ghost prefix = self.sub_chunks().take(i as int);
            assert(prefix.last() == self.sub_chunks@[i - 1]);
            assert(prefix.drop_last() =~= self.sub_chunks().take(i - 1));
            if !self.sub_chunks[i - 1].is_all_air() {
                return self.min_sub_chunk_y.wrapping_add((i - 1) as i8);
            }
            i = i - 1;
        }
        self.min_sub_chunk_y
    }

    /// Biome data for a level chunk: each sub-chunk's biome with a one-entry
    /// header, then an empty border-block list.
    pub fn serialize_biomes(&self) -> (r: Vec<u8>)
        requires
            self.wf(),
        ensures
            r@ == biome_entries(self.sub_chunks()) + seq![0u8],
    {
        let mut buf: Vec<u8> = Vec::new();
        let mut i: usize = 0;
        while i < self.sub_chunks.len()
            invariant
                self.wf(),
                i <= self.sub_chunks@.len(),
                buf@ == biome_entries(self.sub_chunks().take(i as int)),
            decreases self.sub_chunks@.len() - i,
        {
            let sc = &self.sub_chunks[i];
            buf.push(0x01u8);
            write_u32_varint(&mut buf, sc.biome_id() as u32);
            proof {
                assert(self.sub_chunks().take(i + 1).drop_last() =~= self.sub_chunks().take(i as int));
            }
            i = i + 1;
        }
        assert(self.sub_chunks().take(i as int) =~= self.sub_chunks());
        buf.push(0x00u8);
        buf
    }
}

} // verus!
