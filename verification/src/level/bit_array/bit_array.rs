use vstd::prelude::*;

use crate::level::bit_array::bit_array_version::BitArrayVersion;

verus! {

/// The word that holds entry `index` in the given format.
pub open spec fn word_of(version: BitArrayVersion, index: int) -> int {
    if version.spec_is_padded() {
        index / (version.spec_entries() as int)
    } else {
        (index * version.spec_bits()) / 32
    }
}

/// The bit position of entry `index` inside its word.
pub open spec fn offset_of(version: BitArrayVersion, index: int) -> int {
    if version.spec_is_padded() {
        (index % (version.spec_entries() as int)) * version.spec_bits()
    } else {
        (index * version.spec_bits()) % 32
    }
}

/// The value of entry `index` read out of `words`.
pub open spec fn entry_of(version: BitArrayVersion, words: Seq<u32>, index: int) -> u32 {
    (words[word_of(version, index)] >> (offset_of(version, index) as u32))
        & version.spec_max_value()
}

/// `words` with entry `index` replaced by the low bits of `value`.
pub open spec fn with_entry(version: BitArrayVersion, words: Seq<u32>, index: int, value: u32) -> Seq<
    u32,
> {
    let w = word_of(version, index);
    let o = offset_of(version, index) as u32;
    let m = version.spec_max_value();
    words.update(w, (words[w] & !(m << o)) | ((value & m) << o))
}

/// An array of small unsigned integers packed into 32-bit words.
pub struct BitArray {
    pub version: BitArrayVersion,
    pub size: usize,
    pub chunks: Vec<u32>,
}

impl BitArray {
    /// Entry `index` lies in a word that the array holds, and its bit index
    /// can be computed without overflow.
    pub open spec fn can_address(&self, index: int) -> bool {
        &&& 0 <= index
        &&& (self.version.spec_is_padded() || index * self.version.spec_bits() <= usize::MAX)
        &&& word_of(self.version, index) < self.chunks@.len()
    }

    /// The value of entry `index`.
    pub open spec fn entry(&self, index: int) -> u32 {
        entry_of(self.version, self.chunks@, index)
    }

    /// An array of `size` entries in the given format, holding no words yet.
    pub fn new(version: BitArrayVersion, size: usize) -> (r: Self)
        ensures
            r.version == version,
            r.size == size,
            r.chunks@ == Seq::<u32>::empty(),
    {
        Self { version, size, chunks: Vec::new() }
    }

    /// Words needed for `size` entries: the ceiling of `size / entries`.
    fn chunk_count(&self) -> (r: usize)
        ensures
            r == (self.size + self.version.spec_entries() - 1) / (self.version.spec_entries() as int),
    {
        let e = self.version.entries();
        let q = self.size / e;
        let r = if self.size % e == 0 { q } else { q + 1 };
        proof {
            let size = self.size;
            assert(r == (size + e - 1) / (e as int)) by (nonlinear_arith)
                requires
                    e > 0,
                    q == size / e,
                    size % e == 0 ==> r == q,
                    size % e != 0 ==> r == q + 1,
            ;
        }
        r
    }

    fn mask(&self) -> (r: u32)
        ensures
            r == self.version.spec_max_value(),
    {
        self.version.max_value()
    }

    /// The word and bit offset of entry `index`.
    fn locate(&self, index: usize) -> (r: (usize, u32))
        requires
            self.can_address(index as int),
        ensures
            r.0 == word_of(self.version, index as int),
            r.1 == offset_of(self.version, index as int),
            r.1 < 32,
    {
        proof {
            lemma_offset_bounds(self.version, index as int);
        }
        if self.version.is_padded() {
            let word = index / self.version.entries();
            let offset = (index % self.version.entries()) * self.version.bits();
            (word, offset as u32)
        } else {
            let bit_index = index * self.version.bits();
            let word = bit_index >> 5;
            let offset = bit_index & 31;
            assert(bit_index >> 5 == bit_index / 32) by (bit_vector);
            assert(bit_index & 31 == bit_index % 32) by (bit_vector);
            (word, offset as u32)
        }
    }

    pub fn get(&self, index: usize) -> (r: u32)
        requires
            self.can_address(index as int),
        ensures
            r == self.entry(index as int),
    {
        let (word, offset) = self.locate(index);
        (self.chunks[word] >> offset) & self.mask()
    }

    pub fn set(&mut self, index: usize, value: u32)
        requires
            old(self).can_address(index as int),
        ensures
            final(self).version == old(self).version,
            final(self).size == old(self).size,
            final(self).chunks@ == with_entry(old(self).version, old(self).chunks@, index as int, value),
    {
        let (word, offset) = self.locate(index);
        let mask = self.mask() << offset;
        let updated = (self.chunks[word] & !mask) | ((value & self.mask()) << offset);
        self.chunks.set(word, updated);
    }
}

/// Every entry of a format fits in its word: its offset is below 32 and
/// leaves room for its bits.
pub proof fn lemma_offset_bounds(version: BitArrayVersion, index: int)
    requires
        0 <= index,
    ensures
        0 <= offset_of(version, index),
        offset_of(version, index) + version.spec_bits() <= 32,
        0 <= word_of(version, index),
{
    match version {
        BitArrayVersion::V0 => {},
        BitArrayVersion::V1 => {},
        BitArrayVersion::V2 => {},
        BitArrayVersion::V3 => {},
        BitArrayVersion::V4 => {},
        BitArrayVersion::V5 => {},
        BitArrayVersion::V6 => {},
        BitArrayVersion::V8 => {},
        BitArrayVersion::V16 => {},
    }
}

/// Two distinct entries that share a word occupy disjoint bit ranges.
pub proof fn lemma_slots_disjoint(version: BitArrayVersion, i: int, j: int)
    requires
        0 <= i,
        0 <= j,
        i != j,
        word_of(version, i) == word_of(version, j),
    ensures
        offset_of(version, i) + version.spec_bits() <= offset_of(version, j) || offset_of(version, j)
            + version.spec_bits() <= offset_of(version, i),
{
    match version {
        BitArrayVersion::V0 => {},
        BitArrayVersion::V1 => {},
        BitArrayVersion::V2 => {},
        BitArrayVersion::V3 => {},
        BitArrayVersion::V4 => {},
        BitArrayVersion::V5 => {},
        BitArrayVersion::V6 => {},
        BitArrayVersion::V8 => {},
        BitArrayVersion::V16 => {},
    }
}

/// Writing a field and reading the same field gives back the written bits.
proof fn lemma_field_write_read_same(w: u32, v: u32, m: u32, o: u32)
    by (bit_vector)
    requires
        o < 32,
        (m << o) >> o == m,
    ensures
        (((w & !(m << o)) | ((v & m) << o)) >> o) & m == v & m,
{
}

/// Writing a field leaves a disjoint field unchanged.
proof fn lemma_field_write_read_other(w: u32, v: u32, m: u32, o1: u32, o2: u32)
    by (bit_vector)
    requires
        o1 < 32,
        o2 < 32,
        (m << o1) & (m << o2) == 0,
        (m << o2) >> o2 == m,
    ensures
        (((w & !(m << o1)) | ((v & m) << o1)) >> o2) & m == (w >> o2) & m,
{
}

/// A mask of `b` low bits, shifted to a field that fits in the word, loses no bits;
/// two such fields that do not overlap share no bits.
proof fn lemma_mask_fields(m: u32, b: u32, o1: u32, o2: u32)
    by (bit_vector)
    requires
        b <= 16,
        m as int + 1 == (1u32 << b) as int,
        o1 + b <= 32,
        o2 + b <= 32,
    ensures
        (m << o1) >> o1 == m,
        o1 + b <= o2 || o2 + b <= o1 ==> (m << o1) & (m << o2) == 0,
{
}

/// The mask of a format is `2^bits - 1`.
pub(crate) proof fn lemma_max_value_is_mask(version: BitArrayVersion)
    ensures
        version.spec_max_value() as int + 1 == (1u32 << (version.spec_bits() as u32)) as int,
        version.spec_bits() <= 16,
{
    crate::level::bit_array::bit_array_version::lemma_u32_powers_of_two();
}

/// Writing entry `index` and reading entry `j`: the written value, cut to the
/// format's width, when `j == index`; the old entry otherwise.
pub proof fn lemma_entry_after_write(
    version: BitArrayVersion,
    words: Seq<u32>,
    index: int,
    value: u32,
    j: int,
)
    requires
        0 <= index,
        0 <= j,
        word_of(version, index) < words.len(),
        word_of(version, j) < words.len(),
    ensures
        entry_of(version, with_entry(version, words, index, value), j) == if j == index {
            value & version.spec_max_value()
        } else {
            entry_of(version, words, j)
        },
{
    let m = version.spec_max_value();
    let b = version.spec_bits() as u32;
    let oi = offset_of(version, index) as u32;
    let oj = offset_of(version, j) as u32;
    let wi = word_of(version, index);
    let wj = word_of(version, j);
    lemma_offset_bounds(version, index);
    lemma_offset_bounds(version, j);
    lemma_max_value_is_mask(version);
    lemma_mask_fields(m, b, oi, oj);
    lemma_mask_fields(m, b, oj, oi);
    let w = words[wi];
    if j == index {
        lemma_field_write_read_same(w, value, m, oi);
    } else if wi == wj {
        lemma_slots_disjoint(version, index, j);
        lemma_field_write_read_other(w, value, m, oi, oj);
    }
}

/// Setting an entry and reading it back gives the value cut to the format's
/// width; every other addressable entry keeps its value.
pub proof fn lemma_set_then_get(before: BitArray, after: BitArray, index: int, value: u32, j: int)
    requires
        before.can_address(index),
        before.can_address(j),
        after.version == before.version,
        after.chunks@ == with_entry(before.version, before.chunks@, index, value),
    ensures
        after.can_address(j),
        j == index ==> after.entry(j) == value & before.version.spec_max_value(),
        j != index ==> after.entry(j) == before.entry(j),
{
    lemma_entry_after_write(before.version, before.chunks@, index, value, j);
}

} // verus!
