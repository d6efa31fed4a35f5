use chorus::level::chunk::Chunk;

#[test]
fn new_chunk_is_all_air() {
    let c = Chunk::new(3, -4, -4, 24, 0, 1);
    assert_eq!(c.x, 3);
    assert_eq!(c.z, -4);
    assert_eq!(c.highest_non_air_sub_chunk_y(), -4);
    assert_eq!(c.get_block(0, 0, 0, 0), Some(0));
    assert_eq!(c.get_block(15, 319, 15, 1), Some(0));
}

#[test]
fn get_block_outside_the_column() {
    let c = Chunk::new(0, 0, -4, 24, 0, 1);
    // below the lowest sub-chunk
    assert_eq!(c.get_block(0, -65, 0, 0), None);
    // above the highest
    assert_eq!(c.get_block(0, 320, 0, 0), None);
    assert!(c.get_sub_chunk(20).is_none());
    assert!(c.get_sub_chunk(-5).is_none());
    assert!(c.get_sub_chunk(19).is_some());
}

#[test]
fn set_then_get_block() {
    let mut c = Chunk::new(0, 0, -4, 24, 0, 1);
    assert!(c.set_block(2, 70, 5, 0, 12));
    assert_eq!(c.get_block(2, 70, 5, 0), Some(12));
    assert_eq!(c.get_block(2, 71, 5, 0), Some(0));
    assert_eq!(c.get_block(2, 70, 5, 1), Some(0));
    assert_eq!(c.highest_non_air_sub_chunk_y(), 4);
    assert!(!c.set_block(2, 1000, 5, 0, 12));
}

#[test]
fn large_block_ids_round_trip() {
    let mut c = Chunk::new(0, 0, 0, 1, 0, 1);
    assert!(c.set_block(0, 0, 0, 0, u32::MAX));
    assert_eq!(c.get_block(0, 0, 0, 0), Some(u32::MAX));
}

#[test]
fn highest_non_air_moves_down_when_cleared() {
    let mut c = Chunk::new(0, 0, 0, 4, 0, 1);
    c.set_block(0, 5, 0, 0, 1);
    c.set_block(0, 40, 0, 0, 1);
    assert_eq!(c.highest_non_air_sub_chunk_y(), 2);
    c.set_block(0, 40, 0, 0, 0);
    assert_eq!(c.highest_non_air_sub_chunk_y(), 0);
}

#[test]
fn sub_chunk_mut_changes_the_chunk() {
    let mut c = Chunk::new(0, 0, 0, 2, 0, 1);
    c.get_sub_chunk_mut(1).unwrap().set(1, 1, 1, 0, 5);
    assert_eq!(c.get_block(1, 17, 1, 0), Some(5));
    assert!(c.get_sub_chunk_mut(2).is_none());
}

#[test]
fn biome_bytes() {
    let c = Chunk::new(0, 0, 0, 2, 0, 200);
    assert_eq!(c.serialize_biomes(), vec![1, 0xC8, 0x01, 1, 0xC8, 0x01, 0]);
}
