use vstd::prelude::*;

verus! {

/// A stack of items in an inventory slot.
#[derive(Clone, Copy, Debug, Default, PartialEq, Eq, Structural)]
pub struct ItemStack {
    pub id: i16,
    pub count: u16,
    pub meta: u32,
    /// Only set for items that place a block, 0 means the item is not a block.
    pub block_runtime_id: i32,
}

/// How an item stack is described to the client.
#[derive(Clone, Debug, PartialEq, Eq)]
pub struct ItemStackDescriptor {
    pub id: i16,
    pub stack_size: u16,
    pub aux_value: u32,
    /// Identifies the stack across item stack requests.
    pub net_id: Option<i32>,
    pub block_runtime_id: u32,
    pub user_data_buffer: Vec<u8>,
}

impl ItemStack {
    /// The empty stack.
    pub open spec fn spec_air() -> ItemStack {
        ItemStack { id: 0, count: 0, meta: 0, block_runtime_id: 0 }
    }

    pub open spec fn spec_is_empty(&self) -> bool {
        self.id == 0 || self.count == 0
    }

    pub fn air() -> (r: Self)
        ensures
            r == Self::spec_air(),
    {
        Self { id: 0, count: 0, meta: 0, block_runtime_id: 0 }
    }

    pub fn is_empty(&self) -> (r: bool)
        ensures
            r == self.spec_is_empty(),
    {
        self.id == 0 || self.count == 0
    }

    /// `net_id` identifies the stack across item stack requests. Empty slots must never carry one.
    pub fn to_descriptor(&self, net_id: Option<i32>) -> (r: ItemStackDescriptor)
        ensures
            self.spec_is_empty() ==> {
                &&& r.id == 0
                &&& r.stack_size == 0
                &&& r.aux_value == 0
                &&& r.net_id is None
                &&& r.block_runtime_id == 0
            },
            !self.spec_is_empty() ==> {
                &&& r.id == self.id
                &&& r.stack_size == self.count
                &&& r.aux_value == self.meta
                &&& r.net_id == net_id
                &&& r.block_runtime_id == self.block_runtime_id as u32
            },
            r.user_data_buffer@ == Seq::<u8>::empty(),
    {
        if self.is_empty() {
            return ItemStackDescriptor {
                id: 0,
                stack_size: 0,
                aux_value: 0,
                net_id: None,
                block_runtime_id: 0,
                user_data_buffer: Vec::new(),
            };
        }
        ItemStackDescriptor {
            id: self.id,
            stack_size: self.count,
            aux_value: self.meta,
            net_id,
            block_runtime_id: self.block_runtime_id as u32,
            user_data_buffer: Vec::new(),
        }
    }
}

} // verus!
