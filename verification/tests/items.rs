use base64::Engine;
use chorus::registry::item_registry::{
    block_runtime_id, creative_category, item_version, CreativeData, CreativeGroupData,
    CreativeItemCategory, CreativeItemEntry, ItemRegistry, ItemState, ItemVersion,
};

fn state(name: &str, id: i16, version: i32) -> ItemState {
    ItemState { name: name.to_string(), id, version, component_based: version == 1 }
}

fn entry(id: &str, damage: u32, group_index: u32) -> CreativeItemEntry {
    CreativeItemEntry { id: id.to_string(), damage, block_state_b64: None, group_index }
}

#[test]
fn versions_and_categories() {
    assert_eq!(item_version(0), ItemVersion::Legacy);
    assert_eq!(item_version(1), ItemVersion::DataDriven);
    assert_eq!(item_version(7), ItemVersion::Unspecified);
    assert_eq!(creative_category(1), CreativeItemCategory::Construction);
    assert_eq!(creative_category(4), CreativeItemCategory::Items);
    assert_eq!(creative_category(0), CreativeItemCategory::All);
    assert_eq!(creative_category(9), CreativeItemCategory::All);
}

#[test]
fn block_state_network_ids() {
    // {"": {"network_id": 1234}} as little-endian NBT: compound, empty name,
    // an int tag "network_id", end
    let mut nbt = vec![10u8, 0, 0, 3, 10, 0];
    nbt.extend_from_slice(b"network_id");
    nbt.extend_from_slice(&1234i32.to_le_bytes());
    nbt.push(0);
    let b64 = base64::prelude::BASE64_STANDARD.encode(&nbt);
    assert_eq!(block_runtime_id(&b64), Some(1234));
    assert_eq!(block_runtime_id("not base64!"), None);
}

#[test]
fn load_and_lookup_items() {
    let mut r = ItemRegistry::new();
    r.load_items(vec![state("minecraft:stone", 1, 0), state("minecraft:apple", 257, 1)]);
    assert_eq!(r.items().len(), 2);
    assert_eq!(r.items()[1].identifier, "minecraft:apple");
    assert_eq!(r.items()[1].version, ItemVersion::DataDriven);
    assert_eq!(r.get("minecraft:apple"), Some(257));
    assert_eq!(r.get("minecraft:air"), None);
}

#[test]
fn creative_contents_are_numbered() {
    let mut r = ItemRegistry::default();
    r.load_items(vec![state("minecraft:stone", 1, 0), state("minecraft:apple", 257, 1)]);
    r.load_creative(CreativeData {
        groups: vec![
            CreativeGroupData { creative_category: 1, name: "stones".to_string(), icon: entry("minecraft:stone", 0, 0) },
            CreativeGroupData { creative_category: 2, name: "unknown".to_string(), icon: entry("minecraft:nope", 0, 0) },
        ],
        items: vec![entry("minecraft:stone", 2, 0), entry("minecraft:nope", 0, 0), entry("minecraft:apple", 0, 1)],
    });
    let groups = r.creative_groups();
    assert_eq!(groups.len(), 2);
    assert_eq!(groups[0].category, CreativeItemCategory::Construction);
    assert_eq!(groups[0].icon.id, 1);
    assert_eq!(groups[1].icon.id, 0);
    assert_eq!(groups[1].icon.stack_size, None);
    let contents = r.creative_contents();
    assert_eq!(contents.len(), 2);
    assert_eq!(contents[0].creative_net_id, 1);
    assert_eq!(contents[0].item_instance.aux_value, Some(2));
    assert_eq!(contents[0].item_instance.block_runtime_id, Some(0));
    assert_eq!(contents[1].creative_net_id, 2);
    assert_eq!(contents[1].item_instance.id, 257);
    assert_eq!(contents[1].group_id, 1);
}

#[test]
fn describe_unknown_item() {
    let r = ItemRegistry::new();
    assert!(r.describe(&entry("minecraft:stone", 0, 0)).is_none());
}

#[test]
fn a_later_entry_of_a_name_wins() {
    let mut r = ItemRegistry::new();
    r.load_items(vec![state("minecraft:stone", 1, 0), state("minecraft:stone", 5, 0), state("minecraft:dirt", 3, 0)]);
    assert_eq!(r.get("minecraft:stone"), Some(5));
    assert_eq!(r.get("minecraft:dirt"), Some(3));
    assert_eq!(r.items().len(), 3);
}
