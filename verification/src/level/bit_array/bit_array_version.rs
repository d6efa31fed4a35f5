use vstd::prelude::*;

verus! {

/// The storage formats of a packed array: how many bits each entry takes
/// and how many entries share one 32-bit word.
#[derive(Debug, Clone, Copy, PartialEq, Eq, Structural)]
pub enum BitArrayVersion {
    V0,
    V1,
    V2,
    V3,
    V4,
    V5,
    V6,
    V8,
    V16,
}

impl BitArrayVersion {
    /// Bits taken by one entry.
    pub open spec fn spec_bits(self) -> nat {
        match self {
            BitArrayVersion::V0 => 0,
            BitArrayVersion::V1 => 1,
            BitArrayVersion::V2 => 2,
            BitArrayVersion::V3 => 3,
            BitArrayVersion::V4 => 4,
            BitArrayVersion::V5 => 5,
            BitArrayVersion::V6 => 6,
            BitArrayVersion::V8 => 8,
            BitArrayVersion::V16 => 16,
        }
    }

    /// Entries stored in one 32-bit word.
    pub open spec fn spec_entries(self) -> nat {
        match self {
            BitArrayVersion::V0 => 2,
            BitArrayVersion::V1 => 32,
            BitArrayVersion::V2 => 16,
            BitArrayVersion::V3 => 10,
            BitArrayVersion::V4 => 8,
            BitArrayVersion::V5 => 6,
            BitArrayVersion::V6 => 5,
            BitArrayVersion::V8 => 4,
            BitArrayVersion::V16 => 2,
        }
    }

    /// The next wider format, if any.
    pub open spec fn spec_next(self) -> Option<BitArrayVersion> {
        match self {
            BitArrayVersion::V0 => Some(BitArrayVersion::V1),
            BitArrayVersion::V1 => Some(BitArrayVersion::V2),
            BitArrayVersion::V2 => Some(BitArrayVersion::V3),
            BitArrayVersion::V3 => Some(BitArrayVersion::V4),
            BitArrayVersion::V4 => Some(BitArrayVersion::V5),
            BitArrayVersion::V5 => Some(BitArrayVersion::V6),
            BitArrayVersion::V6 => Some(BitArrayVersion::V8),
            BitArrayVersion::V8 => Some(BitArrayVersion::V16),
            BitArrayVersion::V16 => None,
        }
    }

    /// A format is padded when its entries do not fill the whole word.
    pub open spec fn spec_is_padded(self) -> bool {
        self is V3 || self is V5 || self is V6
    }

    /// The largest value an entry can hold: `2^bits - 1`.
    pub open spec fn spec_max_value(self) -> u32 {
        match self {
            BitArrayVersion::V0 => 0,
            BitArrayVersion::V1 => 1,
            BitArrayVersion::V2 => 3,
            BitArrayVersion::V3 => 7,
            BitArrayVersion::V4 => 15,
            BitArrayVersion::V5 => 31,
            BitArrayVersion::V6 => 63,
            BitArrayVersion::V8 => 255,
            BitArrayVersion::V16 => 65535,
        }
    }

    /// The format whose bit width is `val`, if there is one.
    pub open spec fn spec_from_bits(val: u8) -> Option<BitArrayVersion> {
        if val == 0 {
            Some(BitArrayVersion::V0)
        } else if val == 1 {
            Some(BitArrayVersion::V1)
        } else if val == 2 {
            Some(BitArrayVersion::V2)
        } else if val == 3 {
            Some(BitArrayVersion::V3)
        } else if val == 4 {
            Some(BitArrayVersion::V4)
        } else if val == 5 {
            Some(BitArrayVersion::V5)
        } else if val == 6 {
            Some(BitArrayVersion::V6)
        } else if val == 8 {
            Some(BitArrayVersion::V8)
        } else if val == 16 {
            Some(BitArrayVersion::V16)
        } else {
            None
        }
    }

    /// Words needed to hold `size` entries: the ceiling of `size / entries`,
    /// saturated at `i32::MAX`.
    pub open spec fn spec_words_for_size(self, size: nat) -> int {
        let e = self.spec_entries();
        let words = (size + e - 1) / (e as int);
        if words > i32::MAX {
            i32::MAX as int
        } else {
            words
        }
    }

    pub fn bits(self) -> (r: usize)
        ensures
            r == self.spec_bits(),
    {
        match self {
            BitArrayVersion::V0 => 0,
            BitArrayVersion::V1 => 1,
            BitArrayVersion::V2 => 2,
            BitArrayVersion::V3 => 3,
            BitArrayVersion::V4 => 4,
            BitArrayVersion::V5 => 5,
            BitArrayVersion::V6 => 6,
            BitArrayVersion::V8 => 8,
            BitArrayVersion::V16 => 16,
        }
    }

    pub fn entries(self) -> (r: usize)
        ensures
            r == self.spec_entries(),
    {
        match self {
            BitArrayVersion::V0 => 2,
            BitArrayVersion::V1 => 32,
            BitArrayVersion::V2 => 16,
            BitArrayVersion::V3 => 10,
            BitArrayVersion::V4 => 8,
            BitArrayVersion::V5 => 6,
            BitArrayVersion::V6 => 5,
            BitArrayVersion::V8 => 4,
            BitArrayVersion::V16 => 2,
        }
    }

    pub fn next(self) -> (r: Option<BitArrayVersion>)
        ensures
            r == self.spec_next(),
    {
        match self {
            BitArrayVersion::V0 => Some(BitArrayVersion::V1),
            BitArrayVersion::V1 => Some(BitArrayVersion::V2),
            BitArrayVersion::V2 => Some(BitArrayVersion::V3),
            BitArrayVersion::V3 => Some(BitArrayVersion::V4),
            BitArrayVersion::V4 => Some(BitArrayVersion::V5),
            BitArrayVersion::V5 => Some(BitArrayVersion::V6),
            BitArrayVersion::V6 => Some(BitArrayVersion::V8),
            BitArrayVersion::V8 => Some(BitArrayVersion::V16),
            BitArrayVersion::V16 => None,
        }
    }

    pub fn is_padded(self) -> (r: bool)
        ensures
            r == self.spec_is_padded(),
    {
        match self {
            BitArrayVersion::V3 | BitArrayVersion::V5 | BitArrayVersion::V6 => true,
            _ => false,
        }
    }

    pub fn max_value(self) -> (r: u32)
        ensures
            r == self.spec_max_value(),
    {
        let bits: u32 = self.bits() as u32;
        proof {
            lemma_u32_powers_of_two();
        }
        (1u32 << bits) - 1
    }

    pub fn get_version(val: u8) -> (r: Option<BitArrayVersion>)
        ensures
            r == Self::spec_from_bits(val),
    {
        match val {
            0 => Some(BitArrayVersion::V0),
            1 => Some(BitArrayVersion::V1),
            2 => Some(BitArrayVersion::V2),
            3 => Some(BitArrayVersion::V3),
            4 => Some(BitArrayVersion::V4),
            5 => Some(BitArrayVersion::V5),
            6 => Some(BitArrayVersion::V6),
            8 => Some(BitArrayVersion::V8),
            16 => Some(BitArrayVersion::V16),
            _ => None,
        }
    }

    pub fn get_words_for_size(self, size: usize) -> (r: i32)
        ensures
            r == self.spec_words_for_size(size as nat),
    {
        let e = self.entries();
        let q = size / e;
        let words = if size % e == 0 { q } else { q + 1 };
        proof {
            assert(words == (size + e - 1) / (e as int)) by (nonlinear_arith)
                requires
                    e > 0,
                    q == size / e,
                    size % e == 0 ==> words == q,
                    size % e != 0 ==> words == q + 1,
            ;
        }
        if words > i32::MAX as usize {
            i32::MAX
        } else {
            words as i32
        }
    }
}

/// The powers of two that the entry widths give.
pub proof fn lemma_u32_powers_of_two()
    by (bit_vector)
    ensures
        1u32 << 0u32 == 1,
        1u32 << 1u32 == 2,
        1u32 << 2u32 == 4,
        1u32 << 3u32 == 8,
        1u32 << 4u32 == 16,
        1u32 << 5u32 == 32,
        1u32 << 6u32 == 64,
        1u32 << 8u32 == 256,
        1u32 << 16u32 == 65536,
{
}

} // verus!
