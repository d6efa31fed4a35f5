use vstd::prelude::*;

use crate::item::item_stack::ItemStack;

verus! {

pub const MAIN_SIZE: usize = 36;

pub const HOTBAR_SIZE: usize = 9;

pub const OFFHAND_SIZE: usize = 1;

pub const ARMOR_SIZE: usize = 4;

/// A fixed number of item slots.
pub struct Inventory {
    slots: Vec<ItemStack>,
}

impl View for Inventory {
    type V = Seq<ItemStack>;

    closed spec fn view(&self) -> Seq<ItemStack> {
        self.slots@
    }
}

impl Inventory {
    /// An inventory of `size` empty slots.
    pub fn new(size: usize) -> (r: Self)
        ensures
            r@ == Seq::new(size as nat, |i: int| ItemStack::spec_air()),
    {
        let mut slots: Vec<ItemStack> = Vec::new();
        let mut i: usize = 0;
        while i < size
            invariant
                i <= size,
                slots@ == Seq::new(i as nat, |j: int| ItemStack::spec_air()),
            decreases size - i,
        {
            slots.push(ItemStack::air());
            i = i + 1;
            assert(slots@ =~= Seq::new(i as nat, |j: int| ItemStack::spec_air()));
        }
        Self { slots }
    }

    pub fn size(&self) -> (r: usize)
        ensures
            r == self@.len(),
    {
        self.slots.len()
    }

    pub fn slots(&self) -> (r: &[ItemStack])
        ensures
            r@ == self@,
    {
        self.slots.as_slice()
    }

    pub fn get(&self, slot: usize) -> (r: Option<&ItemStack>)
        ensures
            slot < self@.len() ==> r == Some(&self@[slot as int]),
            slot >= self@.len() ==> r is None,
    {
        if slot < self.slots.len() {
            Some(&self.slots[slot])
        } else {
            None
        }
    }

    /// Puts `item` into `slot`; `false`, and no change, when there is no such slot.
    pub fn set(&mut self, slot: usize, item: ItemStack) -> (r: bool)
        ensures
            r == (slot < old(self)@.len()),
            r ==> final(self)@ == old(self)@.update(slot as int, item),
            !r ==> final(self)@ == old(self)@,
    {
        if slot < self.slots.len() {
            self.slots[slot] = item;
            true
        } else {
            false
        }
    }
}

/// A player's main inventory, off hand and armor, with the selected hotbar
/// slot and the counter that numbers item stacks.
pub struct PlayerInventory {
    main: Inventory,
    offhand: Inventory,
    armor: Inventory,
    held_slot: u8,
    next_stack_id: i32,
}

impl PlayerInventory {
    /// The selected slot lies in the hotbar, and no stack id below 0 was
    /// handed out: `new` establishes it and every method keeps it.
    pub open spec fn wf(&self) -> bool {
        &&& (self.spec_held_slot() as int) < HOTBAR_SIZE
        &&& self.last_stack_id() >= 0
    }

    pub closed spec fn spec_main(&self) -> Inventory {
        self.main
    }

    pub closed spec fn spec_offhand(&self) -> Inventory {
        self.offhand
    }

    pub closed spec fn spec_armor(&self) -> Inventory {
        self.armor
    }

    pub closed spec fn spec_held_slot(&self) -> u8 {
        self.held_slot
    }

    /// The last stack id handed out, 0 before the first.
    pub closed spec fn last_stack_id(&self) -> i32 {
        self.next_stack_id
    }

    /// The item in the selected hotbar slot, air when the main inventory has
    /// no such slot.
    pub open spec fn spec_held_item(&self) -> ItemStack {
        if (self.spec_held_slot() as int) < self.spec_main()@.len() {
            self.spec_main()@[self.spec_held_slot() as int]
        } else {
            ItemStack::spec_air()
        }
    }

    /// Empty main, off-hand and armor inventories, the first hotbar slot
    /// selected and no stack ids handed out.
    pub fn new() -> (r: Self)
        ensures
            r.spec_main()@ == Seq::new(MAIN_SIZE as nat, |i: int| ItemStack::spec_air()),
            r.spec_offhand()@ == Seq::new(OFFHAND_SIZE as nat, |i: int| ItemStack::spec_air()),
            r.spec_armor()@ == Seq::new(ARMOR_SIZE as nat, |i: int| ItemStack::spec_air()),
            r.spec_held_slot() == 0,
            r.last_stack_id() == 0,
            r.wf(),
    {
        Self {
            main: Inventory::new(MAIN_SIZE),
            offhand: Inventory::new(OFFHAND_SIZE),
            armor: Inventory::new(ARMOR_SIZE),
            held_slot: 0,
            next_stack_id: 0,
        }
    }

    pub fn main(&self) -> (r: &Inventory)
        ensures
            *r == self.spec_main(),
    {
        &self.main
    }

    pub fn main_mut(&mut self) -> (r: &mut Inventory)
        ensures
            *r == old(self).spec_main(),
            final(self).spec_main() == *final(r),
            final(self).spec_offhand() == old(self).spec_offhand(),
            final(self).spec_armor() == old(self).spec_armor(),
            final(self).spec_held_slot() == old(self).spec_held_slot(),
            final(self).last_stack_id() == old(self).last_stack_id(),
            old(self).wf() ==> final(self).wf(),
    {
        &mut self.main
    }

    pub fn offhand(&self) -> (r: &Inventory)
        ensures
            *r == self.spec_offhand(),
    {
        &self.offhand
    }

    pub fn armor(&self) -> (r: &Inventory)
        ensures
            *r == self.spec_armor(),
    {
        &self.armor
    }

    /// The selected hotbar slot, always one of the hotbar's.
    pub fn held_slot(&self) -> (r: u8)
        ensures
            r == self.spec_held_slot(),
    {
        self.held_slot
    }

    /// Selects hotbar slot `slot`; `false`, and no change, past the hotbar.
    pub fn set_held_slot(&mut self, slot: u8) -> (r: bool)
        ensures
            r == ((slot as int) < HOTBAR_SIZE),
            r ==> final(self).spec_held_slot() == slot,
            !r ==> final(self).spec_held_slot() == old(self).spec_held_slot(),
            old(self).wf() ==> final(self).wf(),
            final(self).spec_main() == old(self).spec_main(),
            final(self).spec_offhand() == old(self).spec_offhand(),
            final(self).spec_armor() == old(self).spec_armor(),
            final(self).last_stack_id() == old(self).last_stack_id(),
    {
        if slot as usize >= HOTBAR_SIZE {
            return false;
        }
        self.held_slot = slot;
        true
    }

    pub fn held_item(&self) -> (r: &ItemStack)
        ensures
            *r == self.spec_held_item(),
    {
        match self.main.get(self.held_slot as usize) {
            Some(item) => item,
            None => &ItemStack { id: 0, count: 0, meta: 0, block_runtime_id: 0 },
        }
    }

    /// Stack ids start at 1 - zero is reserved for empty slots.
    pub fn next_stack_id(&mut self) -> (r: i32)
        requires
            old(self).last_stack_id() < i32::MAX,
        ensures
            r == old(self).last_stack_id() + 1,
            old(self).wf() ==> r >= 1 && final(self).wf(),
            final(self).last_stack_id() == r,
            final(self).spec_main() == old(self).spec_main(),
            final(self).spec_offhand() == old(self).spec_offhand(),
            final(self).spec_armor() == old(self).spec_armor(),
            final(self).spec_held_slot() == old(self).spec_held_slot(),
    {
        self.next_stack_id = self.next_stack_id + 1;
        self.next_stack_id
    }
}

impl Default for PlayerInventory {
    fn default() -> (r: Self)
        ensures
            r.spec_main()@ == Seq::new(MAIN_SIZE as nat, |i: int| ItemStack::spec_air()),
            r.spec_offhand()@ == Seq::new(OFFHAND_SIZE as nat, |i: int| ItemStack::spec_air()),
            r.spec_armor()@ == Seq::new(ARMOR_SIZE as nat, |i: int| ItemStack::spec_air()),
            r.spec_held_slot() == 0,
            r.last_stack_id() == 0,
            r.wf(),
    {
        Self::new()
    }
}

} // verus!
