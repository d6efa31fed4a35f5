use chorus::item::item_stack::ItemStack;
use chorus::player::inventory::{Inventory, PlayerInventory};
use chorus::server::{Server, ServerState};

fn stone() -> ItemStack {
    ItemStack { id: 1, count: 64, meta: 0, block_runtime_id: -7 }
}

#[test]
fn air_is_empty() {
    assert!(ItemStack::air().is_empty());
    assert!(ItemStack { id: 3, count: 0, meta: 0, block_runtime_id: 0 }.is_empty());
    assert!(!stone().is_empty());
}

#[test]
fn descriptors() {
    let d = stone().to_descriptor(Some(4));
    assert_eq!(d.id, 1);
    assert_eq!(d.stack_size, 64);
    assert_eq!(d.net_id, Some(4));
    assert_eq!(d.block_runtime_id, (-7i32) as u32);
    let e = ItemStack::air().to_descriptor(Some(4));
    assert_eq!(e.net_id, None);
    assert_eq!(e.id, 0);
}

#[test]
fn inventory_slots() {
    let mut inv = Inventory::new(3);
    assert_eq!(inv.size(), 3);
    assert!(inv.set(2, stone()));
    assert!(!inv.set(3, stone()));
    assert_eq!(inv.get(2), Some(&stone()));
    assert_eq!(inv.get(3), None);
    assert_eq!(inv.slots()[0], ItemStack::air());
}

#[test]
fn player_inventory_defaults() {
    let p = PlayerInventory::default();
    assert_eq!(p.main().size(), 36);
    assert_eq!(p.offhand().size(), 1);
    assert_eq!(p.armor().size(), 4);
    assert_eq!(p.held_slot(), 0);
    assert!(p.held_item().is_empty());
}

#[test]
fn held_slot_stays_in_hotbar() {
    let mut p = PlayerInventory::new();
    assert!(p.set_held_slot(8));
    assert!(!p.set_held_slot(9));
    assert_eq!(p.held_slot(), 8);
    p.main_mut().set(8, stone());
    assert_eq!(*p.held_item(), stone());
}

#[test]
fn held_item_of_a_short_main_inventory_is_air() {
    let mut p = PlayerInventory::new();
    p.set_held_slot(5);
    *p.main_mut() = Inventory::new(2);
    assert_eq!(*p.held_item(), ItemStack::air());
}

#[test]
fn stack_ids_start_at_one() {
    let mut p = PlayerInventory::new();
    assert_eq!(p.next_stack_id(), 1);
    assert_eq!(p.next_stack_id(), 2);
}

#[test]
fn runtime_ids_count_up_and_wrap() {
    let mut s = ServerState::new();
    assert_eq!(s.get_runtime_id(), 1);
    assert_eq!(s.get_runtime_id(), 2);
    assert_eq!(s.tick(), 0);
    Server::start_tick(&mut s);
    assert_eq!(s.tick(), 1);
}
