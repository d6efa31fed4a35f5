use vstd::prelude::*;

use vstd::arithmetic::power2::{lemma2_to64, pow2};

use indexmap::IndexSet;

use crate::codec::{i32_varint, i32_varints, u32_les, write_i32_varint, write_u32_le};
use crate::index_set::{
    index_set_at, index_set_insert, index_set_insert_full, index_set_items, index_set_len,
    index_set_new,
};

verus! {

/// Entries of one palette: the blocks of a 16x16x16 sub-chunk.
pub const PALETTE_SIZE: usize = 4096;

/// The bit width used to pack indices into a palette of `len` values: the
/// smallest of 1, 2, 3, 4, 5, 6, 8 and 16 whose range holds `len` values,
/// and 16 when none does.
pub open spec fn palette_bits(len: nat) -> u8 {
    if len <= 2 {
        1
    } else if len <= 4 {
        2
    } else if len <= 8 {
        3
    } else if len <= 16 {
        4
    } else if len <= 32 {
        5
    } else if len <= 64 {
        6
    } else if len <= 256 {
        8
    } else {
        16
    }
}

/// Whether `b` is one of the index widths a palette may be packed with.
pub open spec fn valid_width(b: nat) -> bool {
    b == 1 || b == 2 || b == 3 || b == 4 || b == 5 || b == 6 || b == 8 || b == 16
}

/// The width chosen for a palette of `len` values is a valid width whose
/// range holds every palette position, and no smaller valid width does.
pub proof fn lemma_palette_bits_fit(len: nat)
    requires
        1 <= len <= 65536,
    ensures
        valid_width(palette_bits(len) as nat),
        len <= pow2(palette_bits(len) as nat),
        forall|b: nat| valid_width(b) && b < palette_bits(len) ==> #[trigger] pow2(b) < len,
{
    lemma2_to64();
}

/// Word `w` of the packed indices, with its first `k` fields filled in:
/// field `j` holds index `w * per_word + j` at bit `j * bits`.
pub open spec fn packed_word(indices: Seq<u16>, bits: nat, per_word: nat, w: int, k: nat) -> u32
    decreases k,
{
    if k == 0 {
        0
    } else {
        let j = (k - 1) as nat;
        let i = w * per_word + j;
        let field: u32 = if i < PALETTE_SIZE {
            ((indices[i] as u32) << ((j * bits) as u32)) as u32
        } else {
            0
        };
        packed_word(indices, bits, per_word, w, j) | field
    }
}

/// All the indices packed `32 / bits` to a word.
pub open spec fn packed_words(indices: Seq<u16>, bits: nat) -> Seq<u32> {
    let per_word = 32nat / bits;
    let count = (PALETTE_SIZE + per_word - 1) / (per_word as int);
    Seq::new(count as nat, |w: int| packed_word(indices, bits, per_word, w, per_word))
}

/// The palette of a sub-chunk layer: the distinct values in insertion order,
/// and, once more than the first value has been stored, an index into them
/// for each of the entries.
pub struct Palette {
    palette: IndexSet<i32>,
    indices: Option<Box<[u16; 4096]>>,
}

impl Palette {
    /// The distinct values, in the order they were first stored.
    pub closed spec fn items(&self) -> Seq<i32> {
        index_set_items(self.palette)
    }

    /// No per-entry indices yet: every entry holds the first value.
    pub closed spec fn is_uniform(&self) -> bool {
        self.indices is None
    }

    pub closed spec fn wf(&self) -> bool {
        &&& self.items().len() >= 1
        &&& self.items().no_duplicates()
        &&& match self.indices {
            Some(ix) => forall|i: int| 0 <= i < PALETTE_SIZE ==> (#[trigger] ix@[i] as int) < self.items().len(),
            None => true,
        }
    }

    /// The value that entry `index` reads as.
    pub closed spec fn value_at(&self, index: int) -> i32 {
        match self.indices {
            Some(ix) => self.items()[ix@[index] as int],
            None => self.items()[0],
        }
    }

    /// All the entries.
    pub closed spec fn entries(&self) -> Seq<i32> {
        Seq::new(PALETTE_SIZE as nat, |i: int| self.value_at(i))
    }

    /// The position in the palette of the value of each entry.
    pub open spec fn entry_indices(&self) -> Seq<u16> {
        Seq::new(PALETTE_SIZE as nat, |i: int| self.items().index_of(self.entries()[i]) as u16)
    }

    /// The bytes that `serialize` appends: for a uniform palette a header of
    /// 1 and its value; otherwise a header giving the index width, the
    /// entries' positions packed into little-endian words, the palette's size
    /// and its values, as signed varints.
    pub open spec fn serialized(&self) -> Seq<u8> {
        if self.is_uniform() {
            seq![1u8] + i32_varint(self.items()[0])
        } else {
            let bits = palette_bits(self.items().len());
            seq![(2 * bits + 1) as u8] + u32_les(packed_words(self.entry_indices(), bits as nat))
                + i32_varint(self.items().len() as i32) + i32_varints(self.items())
        }
    }

    /// The stored indices of a palette that has them are the positions of
    /// its entries' values.
    proof fn lemma_stored_indices(&self)
        requires
            self.wf(),
            self.indices is Some,
        ensures
            self.indices.unwrap()@ == self.entry_indices(),
    {
        let ix = self.indices.unwrap();
        let items = self.items();
        assert forall|i: int| 0 <= i < PALETTE_SIZE implies #[trigger] ix@[i] == self.entry_indices()[i] by {
            let k = ix@[i] as int;
            assert(k < items.len());
            assert(self.entries()[i] == items[k]);
            assert(items.contains(items[k]));
            let f = items.index_of(items[k]);
            assert(0 <= f < items.len() && items[f] == items[k]);
            assert(f == k);
        }
        assert(ix@ =~= self.entry_indices());
    }

    /// The value that storing `value` puts in an entry: `value` itself while
    /// its position in the palette fits the 16-bit index.
    pub closed spec fn stored_value(&self, value: i32) -> i32 {
        let items = if self.items().contains(value) {
            self.items()
        } else {
            self.items().push(value)
        };
        items[items.index_of(value) % 65536]
    }

    /// Storing `value` into entry `index` does not panic: the entry exists, or
    /// the palette is uniform and `value` is its value, which leaves it as is.
    pub open spec fn can_set(&self, index: int, value: i32) -> bool {
        index < PALETTE_SIZE || (self.is_uniform() && self.items()[0] == value)
    }

    /// While the position of `value` in the palette fits the 16-bit index,
    /// storing `value` stores `value` itself.
    pub proof fn lemma_stored_value(&self, value: i32)
        requires
            self.wf(),
        ensures
            (if self.items().contains(value) {
                self.items().index_of(value)
            } else {
                self.items().len() as int
            }) < 65536 ==> self.stored_value(value) == value,
    {
        let items = self.items();
        if items.contains(value) {
            let p = items.index_of(value);
            assert(0 <= p < items.len() && items[p] == value);
        } else {
            let pushed = items.push(value);
            assert(pushed[items.len() as int] == value);
            assert(pushed.contains(value));
            let p = pushed.index_of(value);
            assert(0 <= p < pushed.len() && pushed[p] == value);
        }
    }

    /// A palette whose every entry is `value`.
    pub fn new(value: i32) -> (r: Self)
        ensures
            r.wf(),
            r.is_uniform(),
            r.items() == seq![value],
            forall|i: int| 0 <= i < PALETTE_SIZE ==> #[trigger] r.entries()[i] == value,
    {
        let mut set = index_set_new();
        index_set_insert(&mut set, value);
        assert(index_set_items(set) =~= seq![value]);
        Self { palette: set, indices: None }
    }

    pub fn get(&self, index: usize) -> (r: i32)
        requires
            self.wf(),
            index < PALETTE_SIZE || self.is_uniform(),
        ensures
            r == self.value_at(index as int),
            index < PALETTE_SIZE ==> r == self.entries()[index as int],
    {
        match &self.indices {
            None => index_set_at(&self.palette, 0),
            Some(indices) => {
                let i = indices[index];
                assert((i as int) < self.items().len());
                index_set_at(&self.palette, i as usize)
            },
        }
    }

    pub fn set(&mut self, index: usize, value: i32)
        requires
            old(self).wf(),
            old(self).can_set(index as int, value),
        ensures
            final(self).wf(),
            final(self).items() == if old(self).items().contains(value) {
                old(self).items()
            } else {
                old(self).items().push(value)
            },
            final(self).is_uniform() == (old(self).is_uniform() && old(self).items()[0] == value),
            forall|i: int|
                0 <= i < PALETTE_SIZE ==> #[trigger] final(self).entries()[i] == if i == index {
                    old(self).stored_value(value)
                } else {
                    old(self).entries()[i]
                },
    {
        let ghost old_items = self.items();
        let (palette_index, _) = index_set_insert_full(&mut self.palette, value);
        proof {
            let items = self.items();
            assert(items.no_duplicates());
            assert(items[palette_index as int] == value);
            assert(items.contains(value));
            assert(items.index_of(value) == palette_index as int);
            assert(forall|i: int| 0 <= i < old_items.len() ==> old_items[i] == #[trigger] items[i]);
        }
        if palette_index == 0 && self.indices.is_none() {
            proof {
                assert(old_items[0] == value);
                assert(self.entries() =~= old(self).entries());
            }
            return;
        }
        if self.indices.is_none() {
            self.indices = Some(Box::new([0u16; 4096]));
        }
        let ghost mid = self.indices;
        match &mut self.indices {
            Some(indices) => {
                let stored = palette_index as u16;
                assert(stored as int == palette_index as int % 65536) by (bit_vector)
                    requires stored == palette_index as u16;
                indices[index] = stored;
            },
            None => {},
        }
        proof {
            let items = self.items();
            assert(items.index_of(value) == palette_index as int);
            assert(self.entries() =~= Seq::new(
                PALETTE_SIZE as nat,
                |i: int| if i == index { old(self).stored_value(value) } else { old(self).entries()[i] },
            ));
        }
    }
    /// Appends the network form of the palette: a header byte, the packed
    /// indices as little-endian words and the values as signed varints; a
    /// uniform palette is a single header byte and its value.
    pub fn serialize(&self, stream: &mut Vec<u8>)
        requires
            self.wf(),
        ensures
            final(stream)@ == old(stream)@ + self.serialized(),
    {
        match &self.indices {
            None => {
                stream.push(1u8);
                let value = index_set_at(&self.palette, 0);
                write_i32_varint(stream, value);
                assert(stream@ =~= old(stream)@ + self.serialized());
            },
            Some(indices) => {
                proof {
                    self.lemma_stored_indices();
                }
                let len = index_set_len(&self.palette);
                let bits = bits_for(len);
                let header = (bits << 1) | 1;
                assert(header == 2 * bits + 1) by (bit_vector)
                    requires
                        header == (bits << 1) | 1,
                        bits <= 16,
                ;
                stream.push(header);
                let ghost after_header = stream@;
                let words = pack_indices(indices, bits);
                let mut j: usize = 0;
                while j < words.len()
                    invariant
                        j <= words.len(),
                        stream@ == after_header + u32_les(words@.take(j as int)),
                    decreases words.len() - j,
                {
                    let ghost before = stream@;
                    write_u32_le(stream, words[j]);
                    proof {
                        assert(words@.take(j + 1).drop_last() =~= words@.take(j as int));
                        assert(stream@ =~= after_header + u32_les(words@.take(j + 1)));
                    }
                    j = j + 1;
                }
                assert(words@.take(words.len() as int) =~= words@);
                write_i32_varint(stream, len as i32);
                let ghost after_len = stream@;
                let mut k: usize = 0;
                while k < len
                    invariant
                        k <= len,
                        len == self.items().len(),
                        stream@ == after_len + i32_varints(self.items().take(k as int)),
                    decreases len - k,
                {
                    let value = index_set_at(&self.palette, k);
                    write_i32_varint(stream, value);
                    proof {
                        assert(self.items().take(k + 1).drop_last() =~= self.items().take(k as int));
                        assert(stream@ =~= after_len + i32_varints(self.items().take(k + 1)));
                    }
                    k = k + 1;
                }
                assert(self.items().take(len as int) =~= self.items());
                assert(stream@ =~= old(stream)@ + self.serialized());
            },
        }
    }
}

/// How many values `b` bits can tell apart.
spec fn width_range(b: u8) -> int {
    if b == 16 {
        65536
    } else if b == 8 {
        256
    } else if b == 6 {
        64
    } else if b == 5 {
        32
    } else if b == 4 {
        16
    } else if b == 3 {
        8
    } else if b == 2 {
        4
    } else {
        2
    }
}

proof fn lemma_usize_powers_of_two()
    by (bit_vector)
    ensures
        1usize << 1usize == 2,
        1usize << 2usize == 4,
        1usize << 3usize == 8,
        1usize << 4usize == 16,
        1usize << 5usize == 32,
        1usize << 6usize == 64,
        1usize << 8usize == 256,
        1usize << 16usize == 65536,
{
}

proof fn lemma_shift_width(b: u8)
    requires
        b == 1 || b == 2 || b == 3 || b == 4 || b == 5 || b == 6 || b == 8 || b == 16,
    ensures
        (1usize << (b as usize)) as int == width_range(b),
{
    lemma_usize_powers_of_two();
}

/// The smallest of the valid widths whose range holds `len` values, or 16.
fn bits_for(len: usize) -> (r: u8)
    ensures
        r == palette_bits(len as nat),
        1 <= r <= 16,
{
    let valid: [u8; 8] = [1, 2, 3, 4, 5, 6, 8, 16];
    assert(valid@ =~= seq![1u8, 2, 3, 4, 5, 6, 8, 16]);
    let mut k: usize = 0;
    while k < 8
        invariant
            k <= 8,
            valid@ == seq![1u8, 2, 3, 4, 5, 6, 8, 16],
            k >= 1 ==> len > width_range(valid@[k - 1]),
        decreases 8 - k,
    {
        let b = valid[k];
        proof {
            lemma_shift_width(b);
        }
        if (1usize << (b as usize)) >= len {
            return b;
        }
        k = k + 1;
    }
    16
}

/// The indices packed `32 / bits` to a word, low fields first.
fn pack_indices(indices: &[u16; 4096], bits: u8) -> (r: Vec<u32>)
    requires
        1 <= bits <= 16,
    ensures
        r@ == packed_words(indices@, bits as nat),
{
    let per_word: usize = 32 / (bits as usize);
    assert(1 <= per_word <= 32) by (nonlinear_arith)
        requires
            1 <= bits <= 16,
            per_word == 32int / (bits as int),
    ;
    let word_count = (4096 + per_word - 1) / per_word;
    assert(1 <= per_word <= 32);
    assert(word_count <= 4096) by (nonlinear_arith)
        requires
            1 <= per_word,
            word_count == (4096 + per_word - 1) / (per_word as int),
    ;
    let mut words: Vec<u32> = Vec::new();
    let mut w: usize = 0;
    while w < word_count
        invariant
            w <= word_count,
            word_count <= 4096,
            per_word == 32nat / (bits as nat),
            1 <= per_word <= 32,
            1 <= bits <= 16,
            word_count == (PALETTE_SIZE + per_word - 1) / (per_word as int),
            words@ == Seq::new(w as nat, |j: int| packed_word(indices@, bits as nat, per_word as nat, j, per_word as nat)),
        decreases word_count - w,
    {
        let mut acc: u32 = 0;
        let mut k: usize = 0;
        while k < per_word
            invariant
                w < word_count,
                word_count <= 4096,
                k <= per_word,
                per_word == 32nat / (bits as nat),
                1 <= per_word <= 32,
                1 <= bits <= 16,
                acc == packed_word(indices@, bits as nat, per_word as nat, w as int, k as nat),
            decreases per_word - k,
        {
            assert(w * per_word + k < 4096 * 32 + 32) by (nonlinear_arith)
                requires
                    w < 4096,
                    per_word <= 32,
                    k < 32,
            ;
            assert(k * (bits as nat) < 32) by (nonlinear_arith)
                requires
                    k < per_word,
                    per_word == 32nat / (bits as nat),
                    bits >= 1,
            ;
            let i = w * per_word + k;
            let ghost before = acc;
            if i < 4096 {
                let shift = (k * (bits as usize)) as u32;
                acc = acc | ((indices[i] as u32) << shift);
            } else {
                assert(acc | 0u32 == acc) by (bit_vector);
            }
            proof {
                let kk = (k + 1) as nat;
                assert((kk - 1) as nat == k as nat);
                assert(packed_word(indices@, bits as nat, per_word as nat, w as int, kk) == before | (
                if i < PALETTE_SIZE {
                    ((indices@[i as int] as u32) << ((k * bits) as u32)) as u32
                } else {
                    0u32
                }));
            }
            k = k + 1;
        }
        words.push(acc);
        proof {
            assert(words@ =~= Seq::new((w + 1) as nat, |j: int| packed_word(indices@, bits as nat, per_word as nat, j, per_word as nat)));
        }
        w = w + 1;
    }
    words
}


/// Entries of `entries` that differ from `air`.
pub open spec fn count_non_air(entries: Seq<i32>, air: i32) -> nat
    decreases entries.len(),
{
    if entries.len() == 0 {
        0
    } else {
        count_non_air(entries.drop_last(), air) + if entries.last() != air {
            1nat
        } else {
            0nat
        }
    }
}

/// Replacing one entry changes the count by what that entry contributed.
pub proof fn lemma_count_update(entries: Seq<i32>, air: i32, i: int, v: i32)
    requires
        0 <= i < entries.len(),
    ensures
        count_non_air(entries.update(i, v), air) + (if entries[i] != air {
            1int
        } else {
            0int
        }) == count_non_air(entries, air) + (if v != air {
            1int
        } else {
            0int
        }),
    decreases entries.len(),
{
    let u = entries.update(i, v);
    if i == entries.len() - 1 {
        assert(u.drop_last() =~= entries.drop_last());
    } else {
        lemma_count_update(entries.drop_last(), air, i, v);
        assert(u.drop_last() =~= entries.drop_last().update(i, v));
    }
}

/// The count never exceeds the number of entries.
pub proof fn lemma_count_bound(entries: Seq<i32>, air: i32)
    ensures
        count_non_air(entries, air) <= entries.len(),
    decreases entries.len(),
{
    if entries.len() > 0 {
        lemma_count_bound(entries.drop_last(), air);
    }
}

/// The count is zero exactly when every entry is `air`.
pub proof fn lemma_count_zero(entries: Seq<i32>, air: i32)
    ensures
        count_non_air(entries, air) == 0 <==> forall|i: int|
            0 <= i < entries.len() ==> #[trigger] entries[i] == air,
    decreases entries.len(),
{
    if entries.len() > 0 {
        lemma_count_zero(entries.drop_last(), air);
        let d = entries.drop_last();
        if count_non_air(entries, air) == 0 {
            assert forall|i: int| 0 <= i < entries.len() implies #[trigger] entries[i] == air by {
                if i < entries.len() - 1 {
                    assert(entries[i] == d[i]);
                }
            }
        }
        if forall|i: int| 0 <= i < entries.len() ==> #[trigger] entries[i] == air {
            assert forall|i: int| 0 <= i < d.len() implies #[trigger] d[i] == air by {
                assert(entries[i] == air);
            }
            assert(entries[entries.len() - 1] == air);
        }
    }
}

/// The entry of a sub-chunk palette that holds block `(x, y, z)`.
pub open spec fn block_index(x: int, y: int, z: int) -> int {
    x * 256 + z * 16 + y
}

/// A 16x16x16 section of a chunk: two layers of blocks and the biomes, with
/// a running count of the non-air blocks.
pub struct SubChunk {
    blocks: Vec<Palette>,
    biomes: Palette,
    air_id: i32,
    non_air_count: u32,
}

impl SubChunk {
    /// The palette of block layer `layer`.
    pub closed spec fn palette(&self, layer: int) -> Palette {
        self.blocks@[layer]
    }

    /// The palette of the biomes.
    pub closed spec fn biome_palette(&self) -> Palette {
        self.biomes
    }

    /// The blocks of layer `layer`, indexed by `block_index`.
    pub open spec fn layer(&self, layer: int) -> Seq<i32> {
        self.palette(layer).entries()
    }

    /// The block id that counts as air.
    pub closed spec fn air(&self) -> i32 {
        self.air_id
    }

    /// The biome of the whole sub-chunk.
    pub open spec fn biome(&self) -> i32 {
        self.biome_palette().items()[0]
    }

    /// The number of distinct ids the palette of `layer` has seen.
    pub open spec fn palette_len(&self, layer: int) -> nat {
        self.palette(layer).items().len()
    }

    /// Whether the palette of `layer` has seen `block_id`.
    pub open spec fn palette_has(&self, layer: int, block_id: i32) -> bool {
        self.palette(layer).items().contains(block_id)
    }

    /// Storing `block_id` into `layer` keeps its palette addressable by the
    /// 16-bit indices: the id is already there, or there is room for it.
    pub open spec fn can_store(&self, layer: int, block_id: i32) -> bool {
        self.palette_has(layer, block_id) || self.palette_len(layer) < 65536
    }

    /// The bytes that `serialize_network` returns.
    pub open spec fn network_bytes(&self, sub_chunk_y: i8) -> Seq<u8> {
        seq![9u8, 2u8, sub_chunk_y as u8] + self.palette(0).serialized() + self.palette(1).serialized()
    }

    /// The network form starts with the version 9, the layer count 2 and the
    /// sub-chunk's height, then gives the palette of layer 0 and after it
    /// that of layer 1, each of them the palette whose entries are the
    /// layer's blocks.
    pub proof fn lemma_network_layout(&self, sub_chunk_y: i8)
        ensures
            self.palette(0).entries() == self.layer(0),
            self.palette(1).entries() == self.layer(1),
            ({
                let bytes = self.network_bytes(sub_chunk_y);
                let n0 = self.palette(0).serialized().len() as int;
                let n1 = self.palette(1).serialized().len() as int;
                &&& bytes.len() == 3 + n0 + n1
                &&& bytes[0] == 9u8
                &&& bytes[1] == 2u8
                &&& bytes[2] == sub_chunk_y as u8
                &&& bytes.subrange(3, 3 + n0) == self.palette(0).serialized()
                &&& bytes.subrange(3 + n0, 3 + n0 + n1) == self.palette(1).serialized()
            }),
    {
        let bytes = self.network_bytes(sub_chunk_y);
        let p0 = self.palette(0).serialized();
        let p1 = self.palette(1).serialized();
        let n0 = p0.len() as int;
        let n1 = p1.len() as int;
        assert(bytes =~= seq![9u8, 2u8, sub_chunk_y as u8] + p0 + p1);
        assert(bytes.subrange(3, 3 + n0) =~= p0);
        assert(bytes.subrange(3 + n0, 3 + n0 + n1) =~= p1);
    }

    /// The bytes that `serialize_biomes` returns.
    pub open spec fn biome_bytes(&self) -> Seq<u8> {
        self.biome_palette().serialized()
    }

    pub closed spec fn wf(&self) -> bool {
        &&& self.blocks@.len() == 2
        &&& forall|l: int| 0 <= l < 2 ==> {
            &&& (#[trigger] self.blocks@[l]).wf()
            &&& self.blocks@[l].items().len() <= 65536
        }
        &&& self.biomes.wf()
        &&& self.biomes.is_uniform()
        &&& self.non_air_count == count_non_air(self.layer(0), self.air_id) + count_non_air(
            self.layer(1),
            self.air_id,
        )
    }

    /// Each layer holds one entry per block of the sub-chunk.
    pub proof fn lemma_layer_len(&self, layer: int)
        ensures
            self.layer(layer).len() == PALETTE_SIZE,
    {
    }

    /// A sub-chunk of air in the given biome.
    pub fn new(air_id: i32, biome: i32) -> (r: Self)
        ensures
            r.wf(),
            r.air() == air_id,
            r.biome() == biome,
            r.palette_len(0) == 1,
            r.palette_len(1) == 1,
            forall|l: int| 0 <= l < 2 ==> (#[trigger] r.palette(l)).is_uniform() && r.palette(l).items() == seq![air_id],
            r.biome_palette().is_uniform(),
            r.biome_palette().items() == seq![biome],
            forall|l: int, i: int|
                0 <= l < 2 && 0 <= i < PALETTE_SIZE ==> #[trigger] r.layer(l)[i] == air_id,
    {
        let blocks = vec![Palette::new(air_id), Palette::new(air_id)];
        let r = Self { blocks, biomes: Palette::new(biome), air_id, non_air_count: 0 };
        proof {
            assert forall|l: int| 0 <= l < 2 implies count_non_air(#[trigger] r.layer(l), air_id) == 0 by {
                lemma_count_zero(r.layer(l), air_id);
                assert forall|i: int| 0 <= i < r.layer(l).len() implies #[trigger] r.layer(l)[i] == air_id by {
                    assert(r.blocks@[l].entries()[i] == air_id);
                }
            }
            assert(count_non_air(r.layer(0), air_id) == 0);
            assert(count_non_air(r.layer(1), air_id) == 0);
        }
        r
    }

    pub fn get(&self, x: u8, y: u8, z: u8, layer: usize) -> (r: i32)
        requires
            self.wf(),
            x < 16,
            y < 16,
            z < 16,
            layer < 2,
        ensures
            r == self.layer(layer as int)[block_index(x as int, y as int, z as int)],
    {
        let index = Self::index(x, y, z);
        self.blocks[layer].get(index)
    }

    pub fn set(&mut self, x: u8, y: u8, z: u8, layer: usize, block_id: i32)
        requires
            old(self).wf(),
            x < 16,
            y < 16,
            z < 16,
            layer < 2,
            old(self).can_store(layer as int, block_id),
        ensures
            final(self).wf(),
            final(self).air() == old(self).air(),
            final(self).biome() == old(self).biome(),
            final(self).layer(layer as int) == old(self).layer(layer as int).update(
                block_index(x as int, y as int, z as int),
                block_id,
            ),
            final(self).layer(1 - layer) == old(self).layer(1 - layer),
            final(self).palette_len(layer as int) <= old(self).palette_len(layer as int) + 1,
            final(self).palette_len(1 - layer) == old(self).palette_len(1 - layer),
    {
        let index = Self::index(x, y, z);
        let ghost i = index as int;
        let ghost l = layer as int;
        let ghost air = self.air_id;
        let old_value = self.blocks[layer].get(index);
        if old_value == block_id {
            assert(self.layer(l) =~= self.layer(l).update(i, block_id));
            return;
        }
        proof {
            lemma_count_update(self.layer(l), air, i, block_id);
            lemma_count_bound(self.layer(0), air);
            lemma_count_bound(self.layer(1), air);
            lemma_count_bound(self.layer(l).update(i, block_id), air);
            self.blocks@[l].lemma_stored_value(block_id);
            if self.blocks@[l].items().contains(block_id) {
                let items = self.blocks@[l].items();
                let p = items.index_of(block_id);
                assert(0 <= p < items.len() && items[p] == block_id);
            }
        }
        if old_value == self.air_id {
            self.non_air_count = self.non_air_count + 1;
        } else if block_id == self.air_id {
            self.non_air_count = self.non_air_count - 1;
        }
        self.blocks[layer].set(index, block_id);
        proof {
            assert(self.layer(l) =~= old(self).layer(l).update(i, block_id));
            assert(self.blocks@[1 - l] == old(self).blocks@[1 - l]);
        }
    }

    /// Whether every block of both layers is air.
    pub fn is_all_air(&self) -> (r: bool)
        requires
            self.wf(),
        ensures
            r == forall|l: int, i: int|
                0 <= l < 2 && 0 <= i < PALETTE_SIZE ==> #[trigger] self.layer(l)[i] == self.air(),
    {
        proof {
            lemma_count_zero(self.layer(0), self.air_id);
            lemma_count_zero(self.layer(1), self.air_id);
            if forall|l: int, i: int|
                0 <= l < 2 && 0 <= i < PALETTE_SIZE ==> #[trigger] self.layer(l)[i] == self.air() {
                assert forall|i: int| 0 <= i < self.layer(0).len() implies #[trigger] self.layer(0)[i] == self.air_id by {
                    assert(self.layer(0)[i] == self.air());
                }
                assert forall|i: int| 0 <= i < self.layer(1).len() implies #[trigger] self.layer(1)[i] == self.air_id by {
                    assert(self.layer(1)[i] == self.air());
                }
            }
        }
        self.non_air_count == 0
    }

    /// The network form of the block layers: a version byte, the layer count,
    /// the sub-chunk's height and then each layer's palette.
    pub fn serialize_network(&self, sub_chunk_y: i8) -> (r: Vec<u8>)
        requires
            self.wf(),
        ensures
            r@ == self.network_bytes(sub_chunk_y),
    {
        let mut buf: Vec<u8> = Vec::new();
        buf.push(9u8);
        buf.push(self.blocks.len() as u8);
        buf.push(sub_chunk_y as u8);
        let mut l: usize = 0;
        while l < self.blocks.len()
            invariant
                self.wf(),
                l <= 2,
                l == 0 ==> buf@ == seq![9u8, 2u8, sub_chunk_y as u8],
                l == 1 ==> buf@ == seq![9u8, 2u8, sub_chunk_y as u8] + self.blocks@[0].serialized(),
                l == 2 ==> buf@ == self.network_bytes(sub_chunk_y),
            decreases 2 - l,
        {
            self.blocks[l].serialize(&mut buf);
            l = l + 1;
        }
        buf
    }

    /// The network form of the biomes.
    pub fn serialize_biomes(&self) -> (r: Vec<u8>)
        requires
            self.wf(),
        ensures
            r@ == self.biome_bytes(),
    {
        let mut buf: Vec<u8> = Vec::new();
        self.biomes.serialize(&mut buf);
        assert(buf@ =~= self.biome_bytes());
        buf
    }

    /// The biome of the sub-chunk.
    pub(crate) fn biome_id(&self) -> (r: i32)
        requires
            self.wf(),
        ensures
            r == self.biome(),
    {
        self.biomes.get(0)
    }

    fn index(x: u8, y: u8, z: u8) -> (r: usize)
        requires
            x < 16,
            y < 16,
            z < 16,
        ensures
            r == block_index(x as int, y as int, z as int),
            r < PALETTE_SIZE,
    {
        let xs = x as usize;
        let ys = y as usize;
        let zs = z as usize;
        let r = (xs << 8) | (zs << 4) | ys;
        assert(r == xs * 256 + zs * 16 + ys) by (bit_vector)
            requires
                r == (xs << 8) | (zs << 4) | ys,
                xs < 16,
                ys < 16,
                zs < 16,
        ;
        r
    }
}

} // verus!
