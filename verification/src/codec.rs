//! Byte encodings used on the wire: unsigned LEB128 varints, zigzag signed
//! varints and little-endian words.
use vstd::prelude::*;

use varint_rs::VarintWriter;

verus! {

/// Unsigned LEB128: seven bits per byte, low group first, the high bit set on
/// every byte but the last.
pub open spec fn u32_varint(value: nat) -> Seq<u8>
    decreases value,
{
    if value < 128 {
        seq![value as u8]
    } else {
        seq![(value % 128 + 128) as u8] + u32_varint(value / 128)
    }
}

/// Zigzag mapping of a signed integer onto an unsigned one:
/// 0, -1, 1, -2, ... become 0, 1, 2, 3, ...
pub open spec fn zigzag(value: i32) -> nat {
    if value >= 0 {
        (2 * value) as nat
    } else {
        (-2 * value - 1) as nat
    }
}

/// A signed varint: the zigzag value written as an unsigned varint.
pub open spec fn i32_varint(value: i32) -> Seq<u8> {
    u32_varint(zigzag(value))
}

/// The signed varints of every value of `values`, one after the other.
pub open spec fn i32_varints(values: Seq<i32>) -> Seq<u8>
    decreases values.len(),
{
    if values.len() == 0 {
        Seq::empty()
    } else {
        i32_varints(values.drop_last()) + i32_varint(values.last())
    }
}

/// The four bytes of `word`, least significant first.
pub open spec fn u32_le(word: u32) -> Seq<u8> {
    seq![
        (word % 256) as u8,
        ((word / 256) % 256) as u8,
        ((word / 65536) % 256) as u8,
        (word / 16777216) as u8,
    ]
}

/// The little-endian bytes of every word of `words`, one after the other.
pub open spec fn u32_les(words: Seq<u32>) -> Seq<u8>
    decreases words.len(),
{
    if words.len() == 0 {
        Seq::empty()
    } else {
        u32_les(words.drop_last()) + u32_le(words.last())
    }
}

/// `varint_rs::VarintWriter::write_u32_varint` on a `Vec<u8>`: appends the
/// LEB128 bytes of `value`. Writing into a `Vec<u8>` only appends, so the call
/// does not fail.
#[verifier::external_body]
pub(crate) fn write_u32_varint(buf: &mut Vec<u8>, value: u32)
    ensures
        final(buf)@ == old(buf)@ + u32_varint(value as nat),
{
    buf.write_u32_varint(value).unwrap()
}

/// `varint_rs::VarintWriter::write_i32_varint` on a `Vec<u8>`: appends the
/// LEB128 bytes of the zigzag value of `value`. Writing into a `Vec<u8>` only
/// appends, so the call does not fail.
#[verifier::external_body]
pub(crate) fn write_i32_varint(buf: &mut Vec<u8>, value: i32)
    ensures
        final(buf)@ == old(buf)@ + i32_varint(value),
{
    buf.write_i32_varint(value).unwrap()
}

/// Appends the four little-endian bytes of `word`.
pub fn write_u32_le(buf: &mut Vec<u8>, word: u32)
    ensures
        final(buf)@ == old(buf)@ + u32_le(word),
{
    let b0 = (word & 0xff) as u8;
    let b1 = ((word >> 8) & 0xff) as u8;
    let b2 = ((word >> 16) & 0xff) as u8;
    let b3 = (word >> 24) as u8;
    assert(word & 0xff == word % 256) by (bit_vector);
    assert((word >> 8) & 0xff == (word / 256) % 256) by (bit_vector);
    assert((word >> 16) & 0xff == (word / 65536) % 256) by (bit_vector);
    assert(word >> 24 == word / 16777216) by (bit_vector);
    buf.push(b0);
    buf.push(b1);
    buf.push(b2);
    buf.push(b3);
    assert(final(buf)@ =~= old(buf)@ + u32_le(word));
}

} // verus!
