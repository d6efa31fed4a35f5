use vstd::prelude::*;

use crate::level::bit_array::bit_array::{
    lemma_entry_after_write, lemma_max_value_is_mask, with_entry, BitArray,
};
use crate::level::bit_array::bit_array_version::BitArrayVersion;
use vstd::std_specs::cmp::PartialEqSpec;

verus! {

/// Whether `value` equals some value of `palette`, by `==` of `V`.
pub open spec fn palette_has<V: PartialEq>(palette: Seq<V>, value: V) -> bool {
    exists|i: int| 0 <= i < palette.len() && #[trigger] palette[i].eq_spec(&value)
}

/// The first position of `palette` whose value equals `value`; meaningful
/// when `palette_has`.
pub open spec fn first_match<V: PartialEq>(palette: Seq<V>, value: V) -> int {
    choose|i: int|
        0 <= i < palette.len() && #[trigger] palette[i].eq_spec(&value) && forall|j: int|
            0 <= j < i ==> !(#[trigger] palette[j].eq_spec(&value))
}

/// No value of `palette` equals a later one.
pub open spec fn distinct_values<V: PartialEq>(palette: Seq<V>) -> bool {
    forall|i: int, j: int| 0 <= i < j < palette.len() ==> !(#[trigger] palette[i].eq_spec(&#[trigger] palette[j]))
}

/// A value of `palette` equal to `value` has a first such position.
pub proof fn lemma_first_match<V: PartialEq>(palette: Seq<V>, value: V)
    requires
        palette_has(palette, value),
    ensures
        0 <= first_match(palette, value) < palette.len(),
        palette[first_match(palette, value)].eq_spec(&value),
        forall|j: int|
            0 <= j < first_match(palette, value) ==> !(#[trigger] palette[j].eq_spec(&value)),
{
    let w = choose|i: int| 0 <= i < palette.len() && #[trigger] palette[i].eq_spec(&value);
    lemma_earliest_match(palette, value, w);
}

proof fn lemma_earliest_match<V: PartialEq>(palette: Seq<V>, value: V, w: int)
    requires
        0 <= w < palette.len(),
        palette[w].eq_spec(&value),
    ensures
        exists|i: int|
            0 <= i < palette.len() && #[trigger] palette[i].eq_spec(&value) && forall|j: int|
                0 <= j < i ==> !(#[trigger] palette[j].eq_spec(&value)),
    decreases w,
{
    if exists|j: int| 0 <= j < w && #[trigger] palette[j].eq_spec(&value) {
        let j = choose|j: int| 0 <= j < w && #[trigger] palette[j].eq_spec(&value);
        lemma_earliest_match(palette, value, j);
    } else {
        assert(0 <= w < palette.len() && palette[w].eq_spec(&value) && forall|j: int|
            0 <= j < w ==> !(#[trigger] palette[j].eq_spec(&value)));
    }
}

/// The position that storing `value` gives it in `palette`: that of its first
/// equal value, or the end when it is new.
pub open spec fn position_for<V: PartialEq>(palette: Seq<V>, value: V) -> int {
    if palette_has(palette, value) {
        first_match(palette, value)
    } else {
        palette.len() as int
    }
}

/// Values stored as indices into the list of distinct values, the indices
/// packed into a bit array of `N` entries that widens as the list grows.
pub struct Palette<V: PartialEq + Clone, const N: usize> {
    palette: Vec<V>,
    bit_array: BitArray,
}

impl<V: PartialEq + Clone, const N: usize> Palette<V, N> {
    /// The distinct values, in the order they were first stored.
    pub closed spec fn values(&self) -> Seq<V> {
        self.palette@
    }

    /// The packed indices.
    pub closed spec fn indices(&self) -> BitArray {
        self.bit_array
    }

    /// Storing `value` would append it and outgrow the index width of a
    /// format that can still widen.
    pub open spec fn widens_for(&self, value: V) -> bool {
        &&& !palette_has(self.values(), value)
        &&& self.values().len() > self.indices().version.spec_max_value()
        &&& self.indices().version.spec_next() is Some
    }

    /// Stores `value` at entry `index`: its position in the list of distinct
    /// values, appended first when new, goes into the packed indices.
    pub fn set(&mut self, index: usize, value: V)
        requires
            V::obeys_eq_spec(),
            old(self).indices().can_address(index as int),
            !old(self).widens_for(value),
        ensures
            final(self).values() == if palette_has(old(self).values(), value) {
                old(self).values()
            } else {
                old(self).values().push(value)
            },
            final(self).indices().version == old(self).indices().version,
            final(self).indices().size == old(self).indices().size,
            final(self).indices().chunks@ == with_entry(
                old(self).indices().version,
                old(self).indices().chunks@,
                index as int,
                position_for(old(self).values(), value) as u32,
            ),
    {
        let idx = self.index_for(value);
        self.bit_array.set(index, idx as u32);
    }

    /// The position of `value` in the list of distinct values, appending it
    /// when it is new; a list that outgrows the index width widens the format.
    fn index_for(&mut self, value: V) -> (r: usize)
        requires
            V::obeys_eq_spec(),
            old(self).widens_for(value) ==> old(self).indices().size == 0,
        ensures
            r < final(self).values().len(),
            palette_has(old(self).values(), value) ==> final(self).values()[r as int].eq_spec(&value),
            !palette_has(old(self).values(), value) ==> final(self).values()[r as int] == value,
            distinct_values(old(self).values()) ==> distinct_values(final(self).values()),
            palette_has(old(self).values(), value) ==> {
                &&& r == first_match(old(self).values(), value)
                &&& final(self).values() == old(self).values()
                &&& final(self).indices() == old(self).indices()
            },
            !palette_has(old(self).values(), value) ==> {
                &&& r == old(self).values().len()
                &&& final(self).values() == old(self).values().push(value)
                &&& old(self).widens_for(value) ==> final(self).indices().version == old(
                    self,
                ).indices().version.spec_next().unwrap() && final(self).indices().size == 0
                    && final(self).indices().chunks@.len() == 0
                &&& !old(self).widens_for(value) ==> final(self).indices() == old(self).indices()
            },
    {
        let mut i: usize = 0;
        while i < self.palette.len()
            invariant
                i <= self.palette@.len(),
                self.palette@ == old(self).palette@,
                self.bit_array == old(self).bit_array,
                V::obeys_eq_spec(),
                forall|j: int| 0 <= j < i ==> !(#[trigger] self.palette@[j].eq_spec(&value)),
            decreases self.palette@.len() - i,
        {
            if self.palette[i] == value {
                proof {
                    assert(palette_has(old(self).values(), value));
                    let m = first_match(old(self).values(), value);
                    if m != i {
                        assert(m < i ==> !self.palette@[m].eq_spec(&value));
                        assert(m > i ==> !self.palette@[i as int].eq_spec(&value));
                    }
                }
                proof {
                    lemma_first_match(old(self).values(), value);
                }
                return i;
            }
            i = i + 1;
        }
        let new_index = self.palette.len();
        self.palette.push(value);
        if new_index > self.bit_array.version.max_value() as usize {
            if let Some(next) = self.bit_array.version.next() {
                self.resize(next);
            }
        }
        new_index
    }

    /// Moves the packed indices to the format `new_version`, entry by entry.
    fn resize(&mut self, new_version: BitArrayVersion)
        requires
            old(self).indices().size == 0,
        ensures
            final(self).values() == old(self).values(),
            final(self).indices().version == new_version,
            final(self).indices().size == 0,
            final(self).indices().chunks@.len() == 0,
    {
        let mut new_array = BitArray::new(new_version, self.bit_array.size);
        let mut i: usize = 0;
        while i < self.bit_array.size
            invariant
                self.bit_array.size == 0,
                new_array.version == new_version,
                new_array.size == 0,
                new_array.chunks@.len() == 0,
            decreases self.bit_array.size - i,
        {
            new_array.set(i, self.bit_array.get(i));
            i = i + 1;
        }
        self.bit_array = new_array;
    }
}

/// After `value` is stored at entry `index`, that entry holds the position
/// of a value equal to `value` in the list of distinct values, as long as the
/// position fits the index width; every other entry keeps its index.
pub proof fn lemma_set_then_lookup<V: PartialEq + Clone, const N: usize>(
    before: Palette<V, N>,
    after: Palette<V, N>,
    index: int,
    value: V,
    j: int,
)
    requires
        before.indices().can_address(index),
        before.indices().can_address(j),
        after.values() == if palette_has(before.values(), value) {
            before.values()
        } else {
            before.values().push(value)
        },
        after.indices().version == before.indices().version,
        after.indices().chunks@ == with_entry(
            before.indices().version,
            before.indices().chunks@,
            index,
            position_for(before.values(), value) as u32,
        ),
    ensures
        j != index ==> after.indices().entry(j) == before.indices().entry(j),
        position_for(before.values(), value) <= before.indices().version.spec_max_value() ==> {
            let p = after.indices().entry(index) as int;
            &&& p == position_for(before.values(), value)
            &&& 0 <= p < after.values().len()
            &&& palette_has(before.values(), value) ==> after.values()[p].eq_spec(&value)
            &&& !palette_has(before.values(), value) ==> after.values()[p] == value
        },
{
    let version = before.indices().version;
    let words = before.indices().chunks@;
    lemma_entry_after_write(version, words, index, position_for(before.values(), value) as u32, j);
    lemma_entry_after_write(version, words, index, position_for(before.values(), value) as u32, index);
    if palette_has(before.values(), value) {
        lemma_first_match(before.values(), value);
    }
    let pos = position_for(before.values(), value);
    if pos <= version.spec_max_value() {
        let m = version.spec_max_value();
        let b = version.spec_bits() as u32;
        lemma_max_value_is_mask(version);
        let x = pos as u32;
        assert(x & m == x) by (bit_vector)
            requires
                x <= m,
                m as int + 1 == (1u32 << b) as int,
                b <= 16,
        ;
    }
}

} // verus!
