use chorus::level::sub_chunk::{Palette, SubChunk};

#[test]
fn uniform_palette_reads_its_value_everywhere() {
    let p = Palette::new(42);
    assert_eq!(p.get(0), 42);
    assert_eq!(p.get(4095), 42);
    // a uniform palette ignores the index
    assert_eq!(p.get(10_000), 42);
}

#[test]
fn set_then_get() {
    let mut p = Palette::new(0);
    p.set(17, 9);
    p.set(4095, -3);
    assert_eq!(p.get(17), 9);
    assert_eq!(p.get(4095), -3);
    assert_eq!(p.get(0), 0);
    p.set(17, 0);
    assert_eq!(p.get(17), 0);
}

#[test]
fn storing_the_first_value_keeps_the_palette_uniform() {
    let mut p = Palette::new(3);
    p.set(100_000, 3);
    let mut bytes = Vec::new();
    p.serialize(&mut bytes);
    assert_eq!(bytes, vec![1, 6]);
}

#[test]
fn serialize_uniform() {
    let p = Palette::new(5);
    let mut bytes = vec![0xAA];
    p.serialize(&mut bytes);
    assert_eq!(bytes, vec![0xAA, 1, 10]);
    let n = Palette::new(-1);
    let mut bytes = Vec::new();
    n.serialize(&mut bytes);
    assert_eq!(bytes, vec![1, 1]);
}

#[test]
fn serialize_two_values() {
    let mut p = Palette::new(5);
    p.set(0, 7);
    p.set(33, 7);
    let mut bytes = Vec::new();
    p.serialize(&mut bytes);
    // header: one bit per entry
    assert_eq!(bytes[0], 3);
    // 128 words of 32 entries, little endian
    assert_eq!(bytes.len(), 1 + 128 * 4 + 1 + 2);
    assert_eq!(&bytes[1..5], &[1, 0, 0, 0]);
    assert_eq!(&bytes[5..9], &[2, 0, 0, 0]);
    assert!(bytes[9..513].iter().all(|&b| b == 0));
    // palette length 2, then 5 and 7, zigzagged
    assert_eq!(&bytes[513..], &[4, 10, 14]);
}

#[test]
fn serialize_three_bit_palette() {
    let mut p = Palette::new(0);
    for v in 1..5 {
        p.set(v as usize, v);
    }
    let mut bytes = Vec::new();
    p.serialize(&mut bytes);
    // five values need three bits: ten entries per word
    assert_eq!(bytes[0], 7);
    let words = (4096 + 9) / 10;
    assert_eq!(bytes.len(), 1 + words * 4 + 1 + 5);
    // entries 1..5 hold indices 1..5 at bits 3, 6, 9, 12
    let w0 = u32::from_le_bytes([bytes[1], bytes[2], bytes[3], bytes[4]]);
    assert_eq!(w0, (1 << 3) | (2 << 6) | (3 << 9) | (4 << 12));
    assert_eq!(&bytes[1 + words * 4..], &[10, 0, 2, 4, 6, 8]);
}

#[test]
fn sub_chunk_counts_non_air_blocks() {
    let mut sc = SubChunk::new(0, 1);
    assert!(sc.is_all_air());
    sc.set(1, 2, 3, 0, 7);
    assert!(!sc.is_all_air());
    assert_eq!(sc.get(1, 2, 3, 0), 7);
    assert_eq!(sc.get(1, 2, 3, 1), 0);
    sc.set(4, 4, 4, 1, 9);
    sc.set(1, 2, 3, 0, 0);
    assert!(!sc.is_all_air());
    sc.set(4, 4, 4, 1, 0);
    assert!(sc.is_all_air());
}

#[test]
fn sub_chunk_same_value_is_no_change() {
    let mut sc = SubChunk::new(0, 1);
    sc.set(0, 0, 0, 0, 0);
    assert!(sc.is_all_air());
}

#[test]
fn sub_chunk_network_bytes() {
    let sc = SubChunk::new(3, 1);
    assert_eq!(sc.serialize_network(-2), vec![9, 2, 0xFE, 1, 6, 1, 6]);
    assert_eq!(sc.serialize_biomes(), vec![1, 2]);
}

#[test]
fn serialize_one_bit_palette_of_zero_and_seven() {
    let mut p = Palette::new(0);
    p.set(0, 7);
    let mut out: Vec<u8> = vec![];
    p.serialize(&mut out);
    assert_eq!(out.len(), 516);
    assert_eq!(out[0], 0x03);
    assert_eq!(&out[1..5], &[0x01, 0x00, 0x00, 0x00]);
    assert!(out[5..513].iter().all(|&b| b == 0));
    assert_eq!(&out[513..516], &[4, 0, 14]);
}

#[test]
fn storing_the_only_value_keeps_the_single_value_form() {
    let mut p = Palette::new(0);
    p.set(100, 0);
    let mut out: Vec<u8> = vec![];
    p.serialize(&mut out);
    assert_eq!(out, vec![0x01u8, 0x00]);
    let s = SubChunk::new(0, 0);
    assert_eq!(s.serialize_network(-4), vec![9u8, 2, 0xFC, 0x01, 0x00, 0x01, 0x00]);
}
