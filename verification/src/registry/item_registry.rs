use vstd::prelude::*;

use std::collections::HashMap;

use base64::prelude::BASE64_STANDARD;
use base64::Engine;

use crate::name_index::NameIndex;

verus! {

/// What the standard base64 engine decodes `text` to, if it is valid base64.
pub uninterp spec fn base64_standard_decode(text: Seq<char>) -> Option<Seq<u8>>;

/// The `Int` stored under `key` in the root compound of the little-endian
/// NBT document at the start of `bytes`, if the document reads and holds one.
pub uninterp spec fn nbt_le_compound_int(bytes: Seq<u8>, key: Seq<char>) -> Option<i32>;

/// `base64::engine::general_purpose::STANDARD.decode`, its error dropped.
#[verifier::external_body]
fn decode_base64(text: &str) -> (r: Option<Vec<u8>>)
    ensures
        match base64_standard_decode(text@) {
            Some(bytes) => r is Some && r.unwrap()@ == bytes,
            None => r is None,
        },
{
    BASE64_STANDARD.decode(text).ok()
}

/// `nbtx::from_le_bytes` into a map of names to `nbtx::Value`, then the
/// `Int` under `key`, if there is one.
#[verifier::external_body]
fn read_nbt_le_int(bytes: &[u8], key: &str) -> (r: Option<i32>)
    ensures
        r == nbt_le_compound_int(bytes@, key@),
{
    let state: HashMap<String, nbtx::Value> = nbtx::from_le_bytes(&mut &bytes[..]).ok()?;
    match state.get(key)? {
        nbtx::Value::Int(id) => Some(*id),
        _ => None,
    }
}

/// How an item's data is defined.
#[derive(Debug, Clone, Copy, PartialEq, Eq, Structural)]
pub enum ItemVersion {
    Legacy,
    DataDriven,
    Unspecified,
}

/// The tab of the creative inventory a group belongs to.
#[derive(Debug, Clone, Copy, PartialEq, Eq, Structural)]
pub enum CreativeItemCategory {
    All,
    Construction,
    Nature,
    Equipment,
    Items,
}

/// One entry of the item table as it is stored.
pub struct ItemState {
    pub name: String,
    pub id: i16,
    pub version: i32,
    pub component_based: bool,
}

/// One entry of the creative contents as it is stored.
pub struct CreativeItemEntry {
    pub id: String,
    pub damage: u32,
    pub block_state_b64: Option<String>,
    pub group_index: u32,
}

/// One group of the creative contents as it is stored.
pub struct CreativeGroupData {
    pub creative_category: i32,
    pub name: String,
    pub icon: CreativeItemEntry,
}

/// The creative contents as they are stored.
pub struct CreativeData {
    pub groups: Vec<CreativeGroupData>,
    pub items: Vec<CreativeItemEntry>,
}

/// An item known to the client.
pub struct ItemDefinition {
    pub identifier: String,
    pub runtime_id: i16,
    pub version: ItemVersion,
    pub component_based: bool,
}

/// An item instance as the client sees it.
#[derive(Debug, PartialEq, Eq)]
pub struct NetworkItemInstanceDescriptor {
    pub id: i32,
    pub stack_size: Option<u16>,
    pub aux_value: Option<u32>,
    pub block_runtime_id: Option<i32>,
    pub user_data_buffer: Option<Vec<u8>>,
}

/// A group of the creative inventory.
pub struct CreativeItemGroup {
    pub category: CreativeItemCategory,
    pub name: String,
    pub icon: NetworkItemInstanceDescriptor,
}

/// An item of the creative inventory.
pub struct CreativeItemData {
    /// Ids start at 1; the client uses them to identify what was picked.
    pub creative_net_id: u32,
    pub item_instance: NetworkItemInstanceDescriptor,
    pub group_id: u32,
}

/// The item version that the stored number stands for.
pub open spec fn spec_item_version(version: i32) -> ItemVersion {
    if version == 0 {
        ItemVersion::Legacy
    } else if version == 1 {
        ItemVersion::DataDriven
    } else {
        ItemVersion::Unspecified
    }
}

/// The creative category that the stored number stands for.
pub open spec fn spec_creative_category(category: i32) -> CreativeItemCategory {
    if category == 1 {
        CreativeItemCategory::Construction
    } else if category == 2 {
        CreativeItemCategory::Nature
    } else if category == 3 {
        CreativeItemCategory::Equipment
    } else if category == 4 {
        CreativeItemCategory::Items
    } else {
        CreativeItemCategory::All
    }
}

/// The network id carried by a base64 block state, if it decodes and holds one.
pub open spec fn spec_block_runtime_id(block_state_b64: Seq<char>) -> Option<i32> {
    match base64_standard_decode(block_state_b64) {
        Some(bytes) => nbt_le_compound_int(bytes, "network_id"@),
        None => None,
    }
}

pub fn item_version(version: i32) -> (r: ItemVersion)
    ensures
        r == spec_item_version(version),
{
    match version {
        0 => ItemVersion::Legacy,
        1 => ItemVersion::DataDriven,
        _ => ItemVersion::Unspecified,
    }
}

pub fn creative_category(category: i32) -> (r: CreativeItemCategory)
    ensures
        r == spec_creative_category(category),
{
    match category {
        1 => CreativeItemCategory::Construction,
        2 => CreativeItemCategory::Nature,
        3 => CreativeItemCategory::Equipment,
        4 => CreativeItemCategory::Items,
        _ => CreativeItemCategory::All,
    }
}

/// The block state the item places carries its own network id, so it does not have to be derived.
pub fn block_runtime_id(block_state_b64: &str) -> (r: Option<i32>)
    ensures
        r == spec_block_runtime_id(block_state_b64@),
{
    let bytes = decode_base64(block_state_b64)?;
    read_nbt_le_int(bytes.as_slice(), "network_id")
}

/// The descriptor used when a group's icon cannot be described.
pub fn air_instance() -> (r: NetworkItemInstanceDescriptor)
    ensures
        r.id == 0,
        r.stack_size is None,
        r.aux_value is None,
        r.block_runtime_id is None,
        r.user_data_buffer is None,
{
    NetworkItemInstanceDescriptor {
        id: 0,
        stack_size: None,
        aux_value: None,
        block_runtime_id: None,
        user_data_buffer: None,
    }
}

/// The ids after taking in `states` over `ids`: each state's name maps to
/// its id, a later state with the same name replacing an earlier one.
pub open spec fn loaded_ids(ids: Map<Seq<char>, i16>, states: Seq<ItemState>) -> Map<Seq<char>, i16>
    decreases states.len(),
{
    if states.len() == 0 {
        ids
    } else {
        loaded_ids(ids, states.drop_last()).insert(states.last().name@, states.last().id)
    }
}

/// The item table the client resolves every item id against, and the
/// creative menu built on top of it.
pub struct ItemRegistry {
    items: Vec<ItemDefinition>,
    index: NameIndex<i16>,
    groups: Vec<CreativeItemGroup>,
    contents: Vec<CreativeItemData>,
}

impl ItemRegistry {
    /// The runtime id of each known identifier.
    pub closed spec fn ids(&self) -> Map<Seq<char>, i16> {
        self.index@
    }

    /// The items in the order they were loaded.
    pub closed spec fn spec_items(&self) -> Seq<ItemDefinition> {
        self.items@
    }

    pub closed spec fn spec_groups(&self) -> Seq<CreativeItemGroup> {
        self.groups@
    }

    pub closed spec fn spec_contents(&self) -> Seq<CreativeItemData> {
        self.contents@
    }

    pub closed spec fn wf(&self) -> bool {
        self.index.wf()
    }

    /// Whether `entry` can be shown: its identifier is a known item.
    pub open spec fn describable(&self, entry: CreativeItemEntry) -> bool {
        self.ids().contains_key(entry.id@)
    }

    /// What `describe` makes of a describable entry.
    pub open spec fn described(&self, entry: CreativeItemEntry, d: NetworkItemInstanceDescriptor) -> bool {
        &&& d.id == self.ids()[entry.id@] as i32
        &&& d.stack_size == Some(1u16)
        &&& d.aux_value == Some(entry.damage)
        &&& d.block_runtime_id == Some(
            match entry.block_state_b64 {
                Some(b64) => match spec_block_runtime_id(b64@) {
                    Some(id) => id,
                    None => 0,
                },
                None => 0,
            },
        )
        &&& d.user_data_buffer matches Some(buf) && buf@.len() == 0
    }

    /// The describable entries of `entries`, in order.
    pub open spec fn shown(&self, entries: Seq<CreativeItemEntry>) -> Seq<CreativeItemEntry> {
        entries.filter(|e: CreativeItemEntry| self.describable(e))
    }

    /// A described entry names its item's runtime id, and the block it places
    /// is the `network_id` read from the NBT that its base64 block state
    /// decodes to; 0 when it has no block state or that does not decode.
    pub proof fn lemma_described_block(&self, entry: CreativeItemEntry, d: NetworkItemInstanceDescriptor)
        requires
            self.described(entry, d),
        ensures
            d.id == self.ids()[entry.id@] as i32,
            d.aux_value == Some(entry.damage),
            ({
                let decoded = match entry.block_state_b64 {
                    Some(b64) => match base64_standard_decode(b64@) {
                        Some(bytes) => nbt_le_compound_int(bytes, "network_id"@),
                        None => None,
                    },
                    None => None,
                };
                &&& decoded matches Some(n) ==> d.block_runtime_id == Some(n)
                &&& decoded is None ==> d.block_runtime_id == Some(0i32)
            }),
    {
    }

    /// An empty registry.
    pub fn new() -> (r: Self)
        ensures
            r.wf(),
            r.ids() == Map::<Seq<char>, i16>::empty(),
            r.spec_items().len() == 0,
            r.spec_groups().len() == 0,
            r.spec_contents().len() == 0,
    {
        Self { items: Vec::new(), index: NameIndex::new(), groups: Vec::new(), contents: Vec::new() }
    }

    /// Takes in the item table: each entry becomes an item, and its name
    /// resolves to its id.
    pub fn load_items(&mut self, states: Vec<ItemState>)
        requires
            old(self).wf(),
        ensures
            final(self).wf(),
            final(self).spec_items().len() == old(self).spec_items().len() + states@.len(),
            forall|i: int|
                0 <= i < states@.len() ==> {
                    let item = #[trigger] final(self).spec_items()[old(self).spec_items().len() + i];
                    &&& item.identifier@ == states@[i].name@
                    &&& item.runtime_id == states@[i].id
                    &&& item.version == spec_item_version(states@[i].version)
                    &&& item.component_based == states@[i].component_based
                },
            forall|i: int| 0 <= i < old(self).spec_items().len() ==> #[trigger] final(self).spec_items()[i] == old(self).spec_items()[i],
            final(self).ids() == loaded_ids(old(self).ids(), states@),
            final(self).spec_groups() == old(self).spec_groups(),
            final(self).spec_contents() == old(self).spec_contents(),
    {
        let ghost start = self.items@.len();
        let ghost old_ids = self.index@;
        let mut k: usize = 0;
        while k < states.len()
            invariant
                k <= states@.len(),
                self.wf(),
                self.items@.len() == start + k,
                forall|i: int| 0 <= i < start ==> #[trigger] self.items@[i] == old(self).items@[i],
                forall|i: int|
                    0 <= i < k ==> {
                        let item = #[trigger] self.items@[start + i];
                        &&& item.identifier@ == states@[i].name@
                        &&& item.runtime_id == states@[i].id
                        &&& item.version == spec_item_version(states@[i].version)
                        &&& item.component_based == states@[i].component_based
                    },
                self.index@ == loaded_ids(old_ids, states@.take(k as int)),
                start == old(self).items@.len(),
                old_ids == old(self).index@,
                self.groups@ == old(self).groups@,
                self.contents@ == old(self).contents@,
            decreases states@.len() - k,
        {
            let state = &states[k];
            self.index.insert(state.name.clone(), state.id);
            self.items.push(
                ItemDefinition {
                    identifier: state.name.clone(),
                    runtime_id: state.id,
                    version: item_version(state.version),
                    component_based: state.component_based,
                },
            );
            proof {
                assert(states@.take(k + 1).drop_last() =~= states@.take(k as int));
                assert(states@.take(k + 1).last() == states@[k as int]);
            }
            k = k + 1;
        }
        proof {
            assert(states@.take(states@.len() as int) =~= states@);
        }
    }

    /// The client's view of `entry`, if its identifier is a known item.
    pub fn describe(&self, entry: &CreativeItemEntry) -> (r: Option<NetworkItemInstanceDescriptor>)
        requires
            self.wf(),
        ensures
            self.describable(*entry) <==> r is Some,
            r matches Some(d) ==> self.described(*entry, d),
    {
        let runtime_id = self.index.get(entry.id.as_str())?;
        let block_runtime_id = match &entry.block_state_b64 {
            Some(b64) => match block_runtime_id(b64.as_str()) {
                Some(id) => id,
                None => 0,
            },
            None => 0,
        };
        Some(
            NetworkItemInstanceDescriptor {
                id: runtime_id as i32,
                stack_size: Some(1),
                aux_value: Some(entry.damage),
                // zero means the item does not place a block
                block_runtime_id: Some(block_runtime_id),
                user_data_buffer: Some(Vec::new()),
            },
        )
    }

    /// Builds the creative menu: each group with its category and its icon
    /// (air when the icon is not a known item), and the known items numbered
    /// from 1 in order.
    pub fn load_creative(&mut self, creative: CreativeData)
        requires
            old(self).wf(),
            creative.items@.len() < u32::MAX,
        ensures
            final(self).wf(),
            final(self).ids() == old(self).ids(),
            final(self).spec_items() == old(self).spec_items(),
            final(self).spec_groups().len() == creative.groups@.len(),
            forall|i: int|
                0 <= i < creative.groups@.len() ==> {
                    let g = #[trigger] final(self).spec_groups()[i];
                    let data = creative.groups@[i];
                    &&& g.category == spec_creative_category(data.creative_category)
                    &&& g.name@ == data.name@
                    &&& (if old(self).describable(data.icon) {
                        old(self).described(data.icon, g.icon)
                    } else {
                        g.icon.id == 0 && g.icon.stack_size is None && g.icon.aux_value is None
                            && g.icon.block_runtime_id is None && g.icon.user_data_buffer is None
                    })
                },
            final(self).spec_contents().len() == old(self).shown(creative.items@).len(),
            forall|k: int|
                0 <= k < final(self).spec_contents().len() ==> {
                    let c = #[trigger] final(self).spec_contents()[k];
                    let entry = old(self).shown(creative.items@)[k];
                    &&& c.creative_net_id == k + 1
                    &&& c.group_id == entry.group_index
                    &&& old(self).described(entry, c.item_instance)
                },
    {
        let mut groups: Vec<CreativeItemGroup> = Vec::new();
        let mut i: usize = 0;
        while i < creative.groups.len()
            invariant
                self.wf(),
                i <= creative.groups@.len(),
                groups@.len() == i,
                forall|j: int|
                    0 <= j < i ==> {
                        let g = #[trigger] groups@[j];
                        let data = creative.groups@[j];
                        &&& g.category == spec_creative_category(data.creative_category)
                        &&& g.name@ == data.name@
                        &&& (if self.describable(data.icon) {
                            self.described(data.icon, g.icon)
                        } else {
                            g.icon.id == 0 && g.icon.stack_size is None && g.icon.aux_value is None
                                && g.icon.block_runtime_id is None && g.icon.user_data_buffer is None
                        })
                    },
            decreases creative.groups@.len() - i,
        {
            let group = &creative.groups[i];
            let icon = match self.describe(&group.icon) {
                Some(d) => d,
                None => air_instance(),
            };
            groups.push(
                CreativeItemGroup {
                    category: creative_category(group.creative_category),
                    name: group.name.clone(),
                    icon,
                },
            );
            i = i + 1;
        }
        let mut contents: Vec<CreativeItemData> = Vec::new();
        let mut j: usize = 0;
        while j < creative.items.len()
            invariant
                self.wf(),
                j <= creative.items@.len(),
                creative.items@.len() < u32::MAX,
                contents@.len() == self.shown(creative.items@.take(j as int)).len(),
                contents@.len() <= j,
                forall|k: int|
                    0 <= k < contents@.len() ==> {
                        let c = #[trigger] contents@[k];
                        let entry = self.shown(creative.items@.take(j as int))[k];
                        &&& c.creative_net_id == k + 1
                        &&& c.group_id == entry.group_index
                        &&& self.described(entry, c.item_instance)
                    },
            decreases creative.items@.len() - j,
        {
            let item = &creative.items[j];
            let ghost prefix = creative.items@.take(j as int);
            let ghost next = creative.items@.take(j + 1);
            proof {
                assert(next.drop_last() =~= prefix);
                assert(next.last() == *item);
                reveal(Seq::filter);
                assert(self.shown(next) == if self.describable(*item) {
                    self.shown(prefix).push(*item)
                } else {
                    self.shown(prefix)
                });
            }
            match self.describe(item) {
                Some(d) => {
                    let id = contents.len() as u32 + 1;
                    contents.push(CreativeItemData { creative_net_id: id, item_instance: d, group_id: item.group_index });
                },
                None => {},
            }
            j = j + 1;
        }
        assert(creative.items@.take(j as int) =~= creative.items@);
        self.groups = groups;
        self.contents = contents;
    }

    /// The items in the order they were loaded.
    pub fn items(&self) -> (r: &[ItemDefinition])
        ensures
            r@ == self.spec_items(),
    {
        self.items.as_slice()
    }

    /// The runtime id of the item named `identifier`.
    pub fn get(&self, identifier: &str) -> (r: Option<i16>)
        requires
            self.wf(),
        ensures
            r == if self.ids().contains_key(identifier@) {
                Some(self.ids()[identifier@])
            } else {
                None
            },
    {
        self.index.get(identifier)
    }

    /// The creative groups, in order.
    pub fn creative_groups(&self) -> (r: &[CreativeItemGroup])
        ensures
            r@ == self.spec_groups(),
    {
        self.groups.as_slice()
    }

    /// The creative items, in order.
    pub fn creative_contents(&self) -> (r: &[CreativeItemData])
        ensures
            r@ == self.spec_contents(),
    {
        self.contents.as_slice()
    }
}

impl Default for ItemRegistry {
    fn default() -> (r: Self)
        ensures
            r.wf(),
            r.ids() == Map::<Seq<char>, i16>::empty(),
            r.spec_items().len() == 0,
    {
        Self::new()
    }
}

} // verus!
