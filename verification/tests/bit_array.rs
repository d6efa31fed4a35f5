use chorus::level::bit_array::bit_array::BitArray;
use chorus::level::bit_array::bit_array_version::BitArrayVersion;

#[test]
fn version_widths() {
    assert_eq!(BitArrayVersion::V0.bits(), 0);
    assert_eq!(BitArrayVersion::V3.bits(), 3);
    assert_eq!(BitArrayVersion::V16.bits(), 16);
    assert_eq!(BitArrayVersion::V3.entries(), 10);
    assert_eq!(BitArrayVersion::V6.entries(), 5);
    assert_eq!(BitArrayVersion::V1.entries(), 32);
}

#[test]
fn version_next_chain() {
    assert_eq!(BitArrayVersion::V0.next(), Some(BitArrayVersion::V1));
    assert_eq!(BitArrayVersion::V6.next(), Some(BitArrayVersion::V8));
    assert_eq!(BitArrayVersion::V8.next(), Some(BitArrayVersion::V16));
    assert_eq!(BitArrayVersion::V16.next(), None);
}

#[test]
fn version_padding_and_max_value() {
    assert!(BitArrayVersion::V3.is_padded());
    assert!(BitArrayVersion::V5.is_padded());
    assert!(BitArrayVersion::V6.is_padded());
    assert!(!BitArrayVersion::V4.is_padded());
    assert!(!BitArrayVersion::V0.is_padded());
    assert_eq!(BitArrayVersion::V0.max_value(), 0);
    assert_eq!(BitArrayVersion::V5.max_value(), 31);
    assert_eq!(BitArrayVersion::V16.max_value(), 65535);
}

#[test]
fn version_from_bits() {
    assert_eq!(BitArrayVersion::get_version(0), Some(BitArrayVersion::V0));
    assert_eq!(BitArrayVersion::get_version(8), Some(BitArrayVersion::V8));
    assert_eq!(BitArrayVersion::get_version(16), Some(BitArrayVersion::V16));
    assert_eq!(BitArrayVersion::get_version(7), None);
    assert_eq!(BitArrayVersion::get_version(255), None);
}

#[test]
fn words_for_size() {
    assert_eq!(BitArrayVersion::V1.get_words_for_size(4096), 128);
    assert_eq!(BitArrayVersion::V3.get_words_for_size(4096), 410);
    assert_eq!(BitArrayVersion::V5.get_words_for_size(4096), 683);
    assert_eq!(BitArrayVersion::V16.get_words_for_size(0), 0);
    assert_eq!(BitArrayVersion::V16.get_words_for_size(usize::MAX), i32::MAX);
}

#[test]
fn new_array_holds_no_words() {
    let a = BitArray::new(BitArrayVersion::V4, 4096);
    assert_eq!(a.version, BitArrayVersion::V4);
    assert_eq!(a.size, 4096);
    assert!(a.chunks.is_empty());
}

#[test]
fn set_then_get_padded() {
    let mut a = BitArray { version: BitArrayVersion::V3, size: 20, chunks: vec![0; 2] };
    a.set(0, 5);
    a.set(9, 7);
    a.set(10, 3);
    a.set(1, 9);
    assert_eq!(a.get(0), 5);
    assert_eq!(a.get(9), 7);
    assert_eq!(a.get(10), 3);
    // 9 does not fit in 3 bits: only its low bits are kept
    assert_eq!(a.get(1), 1);
    assert_eq!(a.get(2), 0);
    assert_eq!(a.chunks[1], 3);
}

#[test]
fn set_then_get_unpadded() {
    let mut a = BitArray { version: BitArrayVersion::V4, size: 16, chunks: vec![0; 2] };
    a.set(3, 0xA);
    a.set(8, 0xF);
    a.set(3, 0x2);
    assert_eq!(a.get(3), 0x2);
    assert_eq!(a.get(8), 0xF);
    assert_eq!(a.get(4), 0);
    assert_eq!(a.chunks[0], 0x2000);
    assert_eq!(a.chunks[1], 0xF);
}

#[test]
fn v0_entries_are_always_zero() {
    let mut a = BitArray { version: BitArrayVersion::V0, size: 8, chunks: vec![0; 1] };
    a.set(5, 1);
    assert_eq!(a.get(5), 0);
    assert_eq!(a.chunks[0], 0);
}
