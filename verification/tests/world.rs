use std::collections::HashMap;

use chorus::level::dimension::Dimension;
use chorus::level::generator::random::RandomGenerator;
use chorus::level::generator::void::VoidGenerator;
use chorus::level::generator::WorldGenerator;
use chorus::level::level::{BlockUpdatedMessage, Level};
use chorus::registry::block_registry::BlockRegistry;

fn registry() -> BlockRegistry {
    let mut r = BlockRegistry::new();
    r.register("minecraft:stone".to_string(), 11);
    r.register("minecraft:air".to_string(), 5);
    r
}

#[test]
fn registry_lookup() {
    let mut r = registry();
    assert_eq!(r.get_block_id("minecraft:air"), Some(5));
    assert_eq!(r.get_block_id("minecraft:stone"), Some(11));
    assert_eq!(r.get_block_id("minecraft:dirt"), None);
    r.register("minecraft:air".to_string(), 6);
    assert_eq!(r.get_block_id("minecraft:air"), Some(6));
    assert_eq!(BlockRegistry::default().get_block_id("minecraft:air"), None);
}

#[test]
fn random_block_is_registered() {
    let r = registry();
    for _ in 0..20 {
        let b = r.get_random();
        assert!(b == 5 || b == 11);
    }
    assert_eq!(BlockRegistry::new().get_random(), 0);
}

#[test]
fn void_generator_makes_air() {
    let g = VoidGenerator { biome: 7 };
    let c = g.generate(&registry(), 2, 3, -4, 19);
    assert_eq!(c.x, 2);
    assert_eq!(c.z, 3);
    assert_eq!(c.get_block(0, -64, 0, 0), Some(5));
    assert_eq!(c.get_block(15, 319, 15, 1), Some(5));
    assert_eq!(c.get_block(0, 320, 0, 0), None);
    assert_eq!(c.highest_non_air_sub_chunk_y(), -4);
}

#[test]
fn void_generator_without_air_uses_zero() {
    let g = VoidGenerator { biome: 7 };
    let c = g.generate(&BlockRegistry::new(), 0, 0, 0, 0);
    assert_eq!(c.get_block(0, 0, 0, 0), Some(0));
}

#[test]
fn random_generator_fills_the_floor() {
    let g = RandomGenerator { biome: 1 };
    let c = g.generate(&registry(), 0, 0, -4, 19);
    for x in 0..16u8 {
        for z in 0..16u8 {
            let b = c.get_block(x, 0, z, 0).unwrap();
            assert!(b == 5 || b == 11);
            assert_eq!(c.get_block(x, 1, z, 0), Some(5));
        }
    }
}

fn overworld() -> Dimension {
    Dimension::new(0, -4, 19, Box::new(VoidGenerator { biome: 1 }))
}

#[test]
fn dimension_generates_on_demand() {
    let mut d = overworld();
    assert_eq!(d.sub_chunk_count(), 24);
    assert!(d.get_chunk(0, 0).is_none());
    assert_eq!(d.get_block(3, 10, 3, 0), None);
    let reg = registry();
    let c = d.get_or_generate_chunk(&reg, 0, -1);
    assert_eq!((c.x, c.z), (0, -1));
    assert!(d.get_chunk(0, -1).is_some());
    assert_eq!(d.get_block(3, 10, -3, 0), Some(5));
    assert_eq!(d.get_block(3, 10, 3, 0), None);
}

#[test]
fn dimension_set_then_get() {
    let mut d = overworld();
    let reg = registry();
    d.get_or_generate_chunk(&reg, -1, 0);
    assert!(d.set_block(-2, 64, 7, 0, 11));
    assert_eq!(d.get_block(-2, 64, 7, 0), Some(11));
    assert_eq!(d.get_block(-1, 64, 7, 0), Some(5));
    assert!(!d.set_block(20, 64, 7, 0, 11));
    assert!(!d.set_block(-2, 400, 7, 0, 11));
    let c = d.get_chunk_mut(-1, 0).unwrap();
    assert!(c.set_block(0, 0, 0, 1, 3));
    assert_eq!(d.get_block(-16, 0, 0, 1), Some(3));
}

#[test]
fn level_routes_to_dimensions() {
    let mut level = Level { dimensions: HashMap::new() };
    level.dimensions.insert(0, overworld());
    let reg = registry();
    level.overworld_mut().get_or_generate_chunk(&reg, 0, 0);
    assert_eq!(level.get_block(0, 1, 2, 3, 0), Some(5));
    assert_eq!(level.get_block(1, 1, 2, 3, 0), None);
    let mut updates = Vec::new();
    assert!(level.set_block(0, 1, 2, 3, 0, 42, &mut updates));
    assert_eq!(updates, vec![BlockUpdatedMessage { dimension_id: 0, x: 1, y: 2, z: 3, layer: 0, block_id: 42 }]);
    assert_eq!(level.get_block(0, 1, 2, 3, 0), Some(42));
    assert!(!level.set_block(1, 1, 2, 3, 0, 42, &mut updates));
    assert!(!level.set_block(0, 100, 2, 3, 0, 42, &mut updates));
    assert!(!level.set_block(0, 1, 2000, 3, 0, 42, &mut updates));
    assert_eq!(updates.len(), 1);
    assert!(level.dimension(1).is_none());
    assert!(level.dimension_mut(0).is_some());
    assert_eq!(level.overworld().id, 0);
}
