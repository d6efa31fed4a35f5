use vstd::prelude::*;

use std::collections::HashMap;

use crate::hash_map_access::hash_map_get_mut;
use crate::level::chunk::{local_y_of, sub_y_of, Chunk};
use crate::level::generator::WorldGenerator;
use crate::registry::block_registry::BlockRegistry;

verus! {

broadcast use vstd::std_specs::hash::group_hash_axioms;

/// The map key of the chunk at chunk position `(x, z)`: both coordinates'
/// bits side by side.
pub open spec fn chunk_key(x: i32, z: i32) -> u64 {
    ((x as u32 as u64) << 32u64) | (z as u32 as u64)
}

/// Distinct chunk positions have distinct keys.
pub proof fn lemma_chunk_key_injective(x1: i32, z1: i32, x2: i32, z2: i32)
    ensures
        chunk_key(x1, z1) == chunk_key(x2, z2) ==> x1 == x2 && z1 == z2,
{
    assert(((x1 as u32 as u64) << 32u64) | (z1 as u32 as u64) == ((x2 as u32 as u64) << 32u64) | (
    z2 as u32 as u64) ==> x1 == x2 && z1 == z2) by (bit_vector);
}

/// The chunk position that `key` is the map key of.
pub fn chunk_position(key: u64) -> (r: (i32, i32))
    ensures
        chunk_key(r.0, r.1) == key,
{
    let x = (key >> 32u64) as u32 as i32;
    let z = key as u32 as i32;
    assert(((((key >> 32u64) as u32 as i32) as u32 as u64) << 32u64) | ((key as u32 as i32) as u32 as u64)
        == key) by (bit_vector);
    (x, z)
}

/// The chunk coordinate of block coordinate `v`.
pub open spec fn chunk_coord(v: i32) -> i32 {
    v >> 4i32
}

/// The coordinate of block coordinate `v` inside its chunk.
pub open spec fn local_coord(v: i32) -> u8 {
    (v & 15i32) as u8
}

/// Whether `(x, y, z)` in `layer` and `(x2, y2, z2)` in `l2` name the same
/// stored block: the same chunk, the same sub-chunk, the same place in it.
pub open spec fn same_block(x: i32, y: i32, z: i32, layer: int, x2: i32, y2: i32, z2: i32, l2: int) -> bool {
    &&& chunk_coord(x2) == chunk_coord(x)
    &&& chunk_coord(z2) == chunk_coord(z)
    &&& local_coord(x2) == local_coord(x)
    &&& local_coord(z2) == local_coord(z)
    &&& l2 == layer
    &&& sub_y_of(y2) == sub_y_of(y)
    &&& local_y_of(y2) == local_y_of(y)
}

/// The map key of the chunk at `(x, z)`.
pub fn chunk_key_of(x: i32, z: i32) -> (r: u64)
    ensures
        r == chunk_key(x, z),
{
    ((x as u32 as u64) << 32u64) | (z as u32 as u64)
}

/// One world dimension: its chunks, generated on first use.
pub struct Dimension {
    pub id: i32,
    pub min_sub_chunk_y: i8,
    pub max_sub_chunk_y: i8,
    chunks: HashMap<u64, Chunk>,
    generator: Box<dyn WorldGenerator>,
}

impl Dimension {
    pub closed spec fn spec_id(&self) -> i32 {
        self.id
    }

    pub closed spec fn spec_min_y(&self) -> i8 {
        self.min_sub_chunk_y
    }

    pub closed spec fn spec_max_y(&self) -> i8 {
        self.max_sub_chunk_y
    }

    /// The chunks held, by `chunk_key`.
    pub closed spec fn chunk_map(&self) -> Map<u64, Chunk> {
        self.chunks@
    }

    /// The chunk at chunk position `(x, z)`, if it is held.
    pub open spec fn chunk_at(&self, x: i32, z: i32) -> Option<Chunk> {
        if self.chunk_map().contains_key(chunk_key(x, z)) {
            Some(self.chunk_map()[chunk_key(x, z)])
        } else {
            None
        }
    }

    /// Whether `c` is a chunk this dimension's generator may make at `(x, z)`
    /// with the blocks of `registry`.
    pub closed spec fn generated(&self, registry: BlockRegistry, x: i32, z: i32, c: Chunk) -> bool {
        self.generator.produces(registry, x, z, self.min_sub_chunk_y, self.max_sub_chunk_y, c)
    }

    pub closed spec fn wf(&self) -> bool {
        forall|k: u64| #[trigger] self.chunks@.contains_key(k) ==> self.chunks@[k].wf()
    }

    /// Whether block `(x, y, z)` lies in a held chunk, at a height that the
    /// chunk holds.
    pub open spec fn reaches(&self, x: i32, y: i32, z: i32) -> bool {
        match self.chunk_at(chunk_coord(x), chunk_coord(z)) {
            Some(c) => c.has_sub_chunk(sub_y_of(y)),
            None => false,
        }
    }

    /// The block id at `(x, y, z)` in `layer`, if it is held.
    pub open spec fn block_at(&self, x: i32, y: i32, z: i32, layer: int) -> Option<u32> {
        match self.chunk_at(chunk_coord(x), chunk_coord(z)) {
            Some(c) => c.block_at(local_coord(x), y, local_coord(z), layer),
            None => None,
        }
    }

    /// Every chunk held by a well-formed dimension is well formed.
    pub proof fn lemma_chunk_wf(&self, x: i32, z: i32)
        requires
            self.wf(),
            self.chunk_at(x, z) is Some,
        ensures
            self.chunk_at(x, z).unwrap().wf(),
    {
    }

    /// A dimension with no chunks yet, generated by `generator`.
    pub fn new(id: i32, min_sub_chunk_y: i8, max_sub_chunk_y: i8, generator: Box<dyn WorldGenerator>) -> (r:
        Self)
        ensures
            r.wf(),
            r.spec_id() == id,
            r.spec_min_y() == min_sub_chunk_y,
            r.spec_max_y() == max_sub_chunk_y,
            r.chunk_map() == Map::<u64, Chunk>::empty(),
    {
        Self { id, min_sub_chunk_y, max_sub_chunk_y, chunks: HashMap::new(), generator }
    }

    /// The lowest sub-chunk height.
    pub(crate) fn min_y(&self) -> (r: i8)
        ensures
            r == self.spec_min_y(),
    {
        self.min_sub_chunk_y
    }

    /// Sub-chunks in each column, from the lowest to the highest height.
    pub fn sub_chunk_count(&self) -> (r: usize)
        ensures
            r == ((self.spec_max_y() - self.spec_min_y() + 1) as usize),
    {
        (self.max_sub_chunk_y as i32 - self.min_sub_chunk_y as i32 + 1) as usize
    }

    /// The chunk at `(x, z)`, generated and kept first if it is not held.
    pub fn get_or_generate_chunk(&mut self, registry: &BlockRegistry, x: i32, z: i32) -> (r: &Chunk)
        requires
            old(self).wf(),
            registry.wf(),
            old(self).spec_min_y() as int <= old(self).spec_max_y() as int + 1,
        ensures
            final(self).wf(),
            final(self).spec_id() == old(self).spec_id(),
            final(self).spec_min_y() == old(self).spec_min_y(),
            final(self).spec_max_y() == old(self).spec_max_y(),
            final(self).chunk_at(x, z) == Some(*r),
            r.wf(),
            old(self).chunk_at(x, z) is Some ==> final(self).chunk_map() == old(self).chunk_map(),
            old(self).chunk_at(x, z) is None ==> {
                &&& old(self).generated(*registry, x, z, *r)
                &&& final(self).chunk_map() == old(self).chunk_map().insert(chunk_key(x, z), *r)
                &&& r.position() == (x, z)
                &&& r.min_y() == old(self).spec_min_y()
                &&& r.sub_chunks().len() == old(self).spec_max_y() - old(self).spec_min_y() + 1
            },
    {
        let key = chunk_key_of(x, z);
        if !self.chunks.contains_key(&key) {
            let chunk = self.generator.generate(registry, x, z, self.min_sub_chunk_y, self.max_sub_chunk_y);
            self.chunks.insert(key, chunk);
        }
        self.chunks.get(&key).unwrap()
    }

    pub fn get_chunk(&self, x: i32, z: i32) -> (r: Option<&Chunk>)
        ensures
            r == match self.chunk_at(x, z) {
                Some(c) => Some(&c),
                None => None,
            },
    {
        let key = chunk_key_of(x, z);
        self.chunks.get(&key)
    }

    pub fn get_chunk_mut(&mut self, x: i32, z: i32) -> (r: Option<&mut Chunk>)
        ensures
            old(self).chunk_at(x, z) is Some ==> {
                &&& r is Some
                &&& *r.unwrap() == old(self).chunk_at(x, z).unwrap()
                &&& final(self).chunk_map() == old(self).chunk_map().insert(
                    chunk_key(x, z),
                    *final(r.unwrap()),
                )
            },
            old(self).chunk_at(x, z) is None ==> r is None && final(self).chunk_map() == old(
                self,
            ).chunk_map(),
            final(self).spec_id() == old(self).spec_id(),
            final(self).spec_min_y() == old(self).spec_min_y(),
            final(self).spec_max_y() == old(self).spec_max_y(),
    {
        let key = chunk_key_of(x, z);
        hash_map_get_mut(&mut self.chunks, &key)
    }

    pub fn get_block(&self, x: i32, y: i32, z: i32, layer: usize) -> (r: Option<u32>)
        requires
            self.wf(),
            self.reaches(x, y, z) ==> layer < 2,
        ensures
            r == self.block_at(x, y, z, layer as int),
    {
        let lx = (x & 0xF) as u8;
        let lz = (z & 0xF) as u8;
        assert(lx < 16 && lz < 16) by (bit_vector)
            requires
                lx == (x & 0xF) as u8,
                lz == (z & 0xF) as u8,
        ;
        match self.get_chunk(x >> 4, z >> 4) {
            Some(c) => c.get_block(lx, y, lz, layer),
            None => None,
        }
    }

    pub fn set_block(&mut self, x: i32, y: i32, z: i32, layer: usize, block_id: u32) -> (r: bool)
        requires
            old(self).wf(),
            old(self).reaches(x, y, z) ==> {
                &&& layer < 2
                &&& old(self).chunk_at(chunk_coord(x), chunk_coord(z)).unwrap().sub_chunk_at(
                    sub_y_of(y),
                ).can_store(layer as int, block_id as i32)
            },
        ensures
            final(self).wf(),
            r == old(self).reaches(x, y, z),
            final(self).spec_id() == old(self).spec_id(),
            final(self).spec_min_y() == old(self).spec_min_y(),
            final(self).spec_max_y() == old(self).spec_max_y(),
            final(self).chunk_map().dom() == old(self).chunk_map().dom(),
            !r ==> final(self).chunk_map() == old(self).chunk_map(),
            r ==> final(self).block_at(x, y, z, layer as int) == Some(block_id),
            forall|x2: i32, y2: i32, z2: i32, l2: int|
                #![trigger final(self).block_at(x2, y2, z2, l2)]
                0 <= l2 < 2 && !same_block(x, y, z, layer as int, x2, y2, z2, l2)
                    ==> final(self).block_at(x2, y2, z2, l2) == old(self).block_at(x2, y2, z2, l2),
    {
        let lx = (x & 0xF) as u8;
        let lz = (z & 0xF) as u8;
        assert(lx < 16 && lz < 16) by (bit_vector)
            requires
                lx == (x & 0xF) as u8,
                lz == (z & 0xF) as u8,
        ;
        let ghost key = chunk_key(chunk_coord(x), chunk_coord(z));
        let r = match self.get_chunk_mut(x >> 4, z >> 4) {
            Some(chunk) => chunk.set_block(lx, y, lz, layer, block_id),
            None => false,
        };
        proof {
            if !r {
                assert(self.chunks@ =~= old(self).chunks@);
            }
            assert forall|k: u64| #[trigger] self.chunks@.contains_key(k) implies self.chunks@[k].wf() by {
                if k != key {
                    assert(old(self).chunks@.contains_key(k));
                }
            }
            assert forall|x2: i32, y2: i32, z2: i32, l2: int|
                0 <= l2 < 2 && !same_block(x, y, z, layer as int, x2, y2, z2, l2)
                implies #[trigger] self.block_at(x2, y2, z2, l2) == old(self).block_at(x2, y2, z2, l2) by {
                lemma_chunk_key_injective(chunk_coord(x), chunk_coord(z), chunk_coord(x2), chunk_coord(z2));
                let lx2 = local_coord(x2);
                let lz2 = local_coord(z2);
                assert(lx2 < 16 && lz2 < 16) by (bit_vector)
                    requires
                        lx2 == (x2 & 15i32) as u8,
                        lz2 == (z2 & 15i32) as u8,
                ;
                if chunk_key(chunk_coord(x2), chunk_coord(z2)) == key {
                    let after = self.chunks@[key];
                    assert(after.block_at(lx2, y2, lz2, l2) == old(self).chunks@[key].block_at(lx2, y2, lz2, l2));
                }
            }
        }
        r
    }
}

} // verus!
