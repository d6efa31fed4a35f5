use vstd::prelude::*;

use std::collections::HashMap;

use crate::hash_map_access::hash_map_get_mut;
use crate::level::dimension::{same_block, Dimension};

verus! {

broadcast use vstd::std_specs::hash::group_hash_axioms;

/// A block change, to tell whoever tracks the blocks of the world.
#[derive(Debug, Clone, Copy, PartialEq, Eq, Structural)]
pub struct BlockUpdatedMessage {
    pub dimension_id: i32,
    pub x: i32,
    pub y: i32,
    pub z: i32,
    pub layer: usize,
    pub block_id: u32,
}

/// The world: its dimensions by id, the overworld being 0.
pub struct Level {
    pub dimensions: HashMap<i32, Dimension>,
}

impl Level {
    pub open spec fn wf(&self) -> bool {
        forall|id: i32| #[trigger] self.dimensions@.contains_key(id) ==> self.dimensions@[id].wf()
    }

    /// The block id at `(x, y, z)` of `layer` in dimension `dim`, if it is held.
    pub open spec fn block_at(&self, dim: i32, x: i32, y: i32, z: i32, layer: int) -> Option<u32> {
        if self.dimensions@.contains_key(dim) {
            self.dimensions@[dim].block_at(x, y, z, layer)
        } else {
            None
        }
    }

    pub fn dimension(&self, id: i32) -> (r: Option<&Dimension>)
        ensures
            self.dimensions@.contains_key(id) ==> r == Some(&self.dimensions@[id]),
            !self.dimensions@.contains_key(id) ==> r is None,
    {
        self.dimensions.get(&id)
    }

    pub fn dimension_mut(&mut self, id: i32) -> (r: Option<&mut Dimension>)
        ensures
            old(self).dimensions@.contains_key(id) ==> {
                &&& r is Some
                &&& *r.unwrap() == old(self).dimensions@[id]
                &&& final(self).dimensions@ == old(self).dimensions@.insert(id, *final(r.unwrap()))
            },
            !old(self).dimensions@.contains_key(id) ==> r is None && final(self).dimensions@ == old(
                self,
            ).dimensions@,
    {
        hash_map_get_mut(&mut self.dimensions, &id)
    }

    /// The overworld, which must have been set up.
    pub fn overworld(&self) -> (r: &Dimension)
        requires
            self.dimensions@.contains_key(0),
        ensures
            *r == self.dimensions@[0],
    {
        self.dimensions.get(&0).unwrap()
    }

    /// The overworld, which must have been set up.
    pub fn overworld_mut(&mut self) -> (r: &mut Dimension)
        requires
            old(self).dimensions@.contains_key(0),
        ensures
            *r == old(self).dimensions@[0],
            final(self).dimensions@ == old(self).dimensions@.insert(0, *final(r)),
    {
        hash_map_get_mut(&mut self.dimensions, &0).unwrap()
    }

    pub fn get_block(&self, dim: i32, x: i32, y: i32, z: i32, layer: usize) -> (r: Option<u32>)
        requires
            self.wf(),
            self.dimensions@.contains_key(dim) && self.dimensions@[dim].reaches(x, y, z) ==> layer < 2,
        ensures
            r == self.block_at(dim, x, y, z, layer as int),
    {
        match self.dimension(dim) {
            Some(d) => d.get_block(x, y, z, layer),
            None => None,
        }
    }

    /// Sets a block and records the change in `writer`; `false`, with no
    /// change and nothing recorded, when the dimension or the block's column
    /// or height is not held.
    pub fn set_block(
        &mut self,
        dim: i32,
        x: i32,
        y: i32,
        z: i32,
        layer: usize,
        block_id: u32,
        writer: &mut Vec<BlockUpdatedMessage>,
    ) -> (r: bool)
        requires
            old(self).wf(),
            old(self).dimensions@.contains_key(dim) && old(self).dimensions@[dim].reaches(x, y, z)
                ==> {
                &&& layer < 2
                &&& old(self).dimensions@[dim].chunk_at(
                    crate::level::dimension::chunk_coord(x),
                    crate::level::dimension::chunk_coord(z),
                ).unwrap().sub_chunk_at(crate::level::chunk::sub_y_of(y)).can_store(
                    layer as int,
                    block_id as i32,
                )
            },
        ensures
            final(self).wf(),
            r == (old(self).dimensions@.contains_key(dim) && old(self).dimensions@[dim].reaches(
                x,
                y,
                z,
            )),
            !r ==> *final(self) == *old(self),
            final(writer)@ == if r {
                old(writer)@.push(BlockUpdatedMessage { dimension_id: dim, x, y, z, layer, block_id })
            } else {
                old(writer)@
            },
            final(self).dimensions@.dom() == old(self).dimensions@.dom(),
            r ==> final(self).block_at(dim, x, y, z, layer as int) == Some(block_id),
            forall|d2: i32, x2: i32, y2: i32, z2: i32, l2: int|
                #![trigger final(self).block_at(d2, x2, y2, z2, l2)]
                0 <= l2 < 2 && !(r && d2 == dim && same_block(x, y, z, layer as int, x2, y2, z2, l2))
                    ==> final(self).block_at(d2, x2, y2, z2, l2) == old(self).block_at(d2, x2, y2, z2, l2),
    {
        let held = match self.dimension(dim) {
            Some(d) => {
                proof {
                    let dd = self.dimensions@[dim];
                    if dd.reaches(x, y, z) {
                        assert(layer < 2);
                    }
                }
                d.get_block(x, y, z, layer).is_some()
            },
            None => false,
        };
        if !held {
            return false;
        }
        match self.dimension_mut(dim) {
            Some(d) => {
                let changed = d.set_block(x, y, z, layer, block_id);
                proof {
                    assert forall|id: i32| #[trigger] self.dimensions@.contains_key(id) implies self.dimensions@[id].wf() by {
                        if id != dim {
                            assert(old(self).dimensions@.contains_key(id));
                        }
                    }
                }
                writer.push(BlockUpdatedMessage { dimension_id: dim, x, y, z, layer, block_id });
                changed
            },
            None => false,
        }
    }
}

} // verus!
