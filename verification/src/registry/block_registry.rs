use vstd::prelude::*;

use crate::name_index::NameIndex;
use crate::random::random_below;

verus! {

/// The block identifiers known to the server, each with the hash of its
/// default state.
pub struct BlockRegistry {
    default_hash: NameIndex<i32>,
}

impl BlockRegistry {
    /// The default hash of each registered identifier.
    pub closed spec fn default_hashes(&self) -> Map<Seq<char>, i32> {
        self.default_hash@
    }

    /// The default hash registered for `name`, if any.
    pub open spec fn lookup(&self, name: Seq<char>) -> Option<i32> {
        if self.default_hashes().contains_key(name) {
            Some(self.default_hashes()[name])
        } else {
            None
        }
    }

    pub closed spec fn wf(&self) -> bool {
        self.default_hash.wf()
    }

    /// Whether no block is registered.
    pub open spec fn is_empty(&self) -> bool {
        self.default_hashes() == Map::<Seq<char>, i32>::empty()
    }

    /// An empty registry.
    pub fn new() -> (r: Self)
        ensures
            r.wf(),
            r.is_empty(),
    {
        Self { default_hash: NameIndex::new() }
    }

    /// Records `default_hash` as the default state of `identifier`, replacing
    /// what an earlier registration of the same identifier recorded.
    pub fn register(&mut self, identifier: String, default_hash: i32)
        requires
            old(self).wf(),
        ensures
            final(self).wf(),
            final(self).default_hashes() == old(self).default_hashes().insert(identifier@, default_hash),
    {
        self.default_hash.insert(identifier, default_hash);
    }

    /// The default hash of the block named `identifier`.
    pub fn get_block_id(&self, identifier: &str) -> (r: Option<i32>)
        requires
            self.wf(),
        ensures
            r == self.lookup(identifier@),
    {
        self.default_hash.get(identifier)
    }

    /// The default hash of a randomly chosen registered block, 0 when none is
    /// registered.
    pub fn get_random(&self) -> (r: u32)
        requires
            self.wf(),
        ensures
            self.is_empty() ==> r == 0,
            !self.is_empty() ==> exists|name: Seq<char>|
                #[trigger] self.default_hashes().contains_key(name) && self.default_hashes()[name] == r as i32,
    {
        let n = self.default_hash.len();
        if n == 0 {
            proof {
                self.default_hash.lemma_empty();
            }
            return 0;
        }
        let i = random_below(n);
        let h = self.default_hash.value_at(i);
        proof {
            self.default_hash.lemma_value_named(i as int);
            let name = self.default_hash.names()[i as int];
            assert(self.default_hashes().contains_key(name));
            if self.is_empty() {
                assert(!Map::<Seq<char>, i32>::empty().contains_key(name));
            }
        }
        assert((h as u32) as i32 == h) by (bit_vector);
        h as u32
    }
}

impl Default for BlockRegistry {
    fn default() -> (r: Self)
        ensures
            r.wf(),
            r.is_empty(),
    {
        Self::new()
    }
}

} // verus!
