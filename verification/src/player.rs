use vstd::prelude::*;

use std::collections::{HashSet, VecDeque};

use crate::level::dimension::{chunk_key, chunk_key_of};
use crate::random::random_i64;

pub mod inventory;

verus! {

broadcast use vstd::std_specs::hash::group_hash_axioms;

/// A player in the world: its ids and the chunks it is being sent.
pub struct Player {
    unique_id: i64,
    runtime_id: u64,
    pub chunks_radius: i32,
    pub chunks_center: (i32, i32),
    pub chunks_pending: VecDeque<(i32, i32)>,
    /// The chunks sent so far, by `chunk_key`.
    pub chunks_sent: HashSet<u64>,
}

impl Player {
    pub closed spec fn spec_unique_id(&self) -> i64 {
        self.unique_id
    }

    pub closed spec fn spec_runtime_id(&self) -> u64 {
        self.runtime_id
    }

    pub closed spec fn spec_chunks_radius(&self) -> i32 {
        self.chunks_radius
    }

    pub closed spec fn spec_chunks_center(&self) -> (i32, i32) {
        self.chunks_center
    }

    pub closed spec fn spec_chunks_pending(&self) -> Seq<(i32, i32)> {
        self.chunks_pending@
    }

    /// The keys of the chunks sent so far.
    pub closed spec fn spec_chunks_sent(&self) -> Set<u64> {
        self.chunks_sent@
    }

    /// A player with the given runtime id and a randomly chosen unique id,
    /// with no chunks pending or sent.
    pub fn new(runtime_id: u64) -> (r: Self)
        ensures
            r.spec_runtime_id() == runtime_id,
            r.spec_chunks_radius() == 0,
            r.spec_chunks_center() == (0i32, 0i32),
            r.spec_chunks_pending() == Seq::<(i32, i32)>::empty(),
            r.spec_chunks_sent() == Set::<u64>::empty(),
    {
        Self {
            unique_id: random_i64(),
            runtime_id,
            chunks_radius: 0,
            chunks_center: (0, 0),
            chunks_pending: VecDeque::new(),
            chunks_sent: HashSet::new(),
        }
    }

    /// The next chunk to send, taken out of the queue; none while the view
    /// radius is unset or nothing is pending.
    pub(crate) fn pop_pending_chunk(&mut self) -> (r: Option<(i32, i32)>)
        ensures
            final(self).spec_chunks_sent() == old(self).spec_chunks_sent(),
            final(self).spec_runtime_id() == old(self).spec_runtime_id(),
            final(self).spec_unique_id() == old(self).spec_unique_id(),
            final(self).spec_chunks_radius() == old(self).spec_chunks_radius(),
            final(self).spec_chunks_center() == old(self).spec_chunks_center(),
            old(self).spec_chunks_radius() == 0 || old(self).spec_chunks_pending().len() == 0 ==> r
                is None && final(self).spec_chunks_pending() == old(self).spec_chunks_pending(),
            old(self).spec_chunks_radius() != 0 && old(self).spec_chunks_pending().len() > 0 ==> r
                == Some(old(self).spec_chunks_pending()[0]) && final(self).spec_chunks_pending()
                == old(self).spec_chunks_pending().drop_first(),
    {
        if self.chunks_radius == 0 {
            return None;
        }
        self.chunks_pending.pop_front()
    }

    /// Records that the chunk at `(x, z)` was sent; the view radius in blocks
    /// to announce when nothing more is pending.
    pub(crate) fn record_sent(&mut self, x: i32, z: i32) -> (r: Option<u32>)
        ensures
            final(self).spec_runtime_id() == old(self).spec_runtime_id(),
            final(self).spec_unique_id() == old(self).spec_unique_id(),
            final(self).spec_chunks_radius() == old(self).spec_chunks_radius(),
            final(self).spec_chunks_center() == old(self).spec_chunks_center(),
            final(self).spec_chunks_pending() == old(self).spec_chunks_pending(),
            final(self).spec_chunks_sent() == old(self).spec_chunks_sent().insert(chunk_key(x, z)),
            r == if old(self).spec_chunks_pending().len() == 0 {
                Some(((old(self).spec_chunks_radius() as u32) << 4u32))
            } else {
                None
            },
    {
        self.chunks_sent.insert(chunk_key_of(x, z));
        if self.chunks_pending.len() == 0 {
            Some((self.chunks_radius as u32) << 4u32)
        } else {
            None
        }
    }

    pub fn unique_id(&self) -> (r: i64)
        ensures
            r == self.spec_unique_id(),
    {
        self.unique_id
    }

    pub fn runtime_id(&self) -> (r: u64)
        ensures
            r == self.spec_runtime_id(),
    {
        self.runtime_id
    }
}

} // verus!
