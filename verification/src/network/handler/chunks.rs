use vstd::prelude::*;

use crate::level::chunk::{all_air, highest_non_air, Chunk};
use crate::level::dimension::{chunk_key, Dimension};
use crate::level::level::Level;
use crate::player::Player;
use crate::registry::block_registry::BlockRegistry;

verus! {

/// How a requested sub-chunk is answered.
#[derive(Debug, Clone, Copy, PartialEq, Eq, Structural)]
pub enum SubChunkRequestResult {
    Success,
    LevelChunkDoesntExist,
    SuccessAllAir,
}

/// The answer for one requested sub-chunk: the result and the serialized
/// sub-chunk, empty unless the result is `Success`.
pub struct SubChunkEntry {
    pub offset: (i8, i8, i8),
    pub result: SubChunkRequestResult,
    pub serialized: Vec<u8>,
}

/// The sub-chunk position that `offset` from `center` names.
pub open spec fn offset_position(center: (i32, i32, i32), offset: (i8, i8, i8)) -> (int, int, int) {
    (center.0 + offset.0, center.1 + offset.1, center.2 + offset.2)
}

/// Whether the sub-chunk position that `offset` from `center` names has
/// coordinates that fit `i32`.
pub open spec fn offset_fits(center: (i32, i32, i32), offset: (i8, i8, i8)) -> bool {
    let (x, y, z) = offset_position(center, offset);
    &&& i32::MIN <= x <= i32::MAX
    &&& i32::MIN <= y <= i32::MAX
    &&& i32::MIN <= z <= i32::MAX
}

/// The answer for the sub-chunk at `offset` from `center` in dimension
/// `dimension`: no chunk when the dimension or the chunk column is not held;
/// all air when the column lacks that height or holds only air there; the
/// network bytes of the sub-chunk otherwise.
pub open spec fn sub_chunk_answer(
    level: Level,
    dimension: i32,
    center: (i32, i32, i32),
    offset: (i8, i8, i8),
) -> (SubChunkRequestResult, Seq<u8>) {
    let (cx, cy, cz) = offset_position(center, offset);
    let column = if level.dimensions@.contains_key(dimension) {
        level.dimensions@[dimension].chunk_at(cx as i32, cz as i32)
    } else {
        None
    };
    match column {
        None => (SubChunkRequestResult::LevelChunkDoesntExist, Seq::empty()),
        Some(c) => if !c.has_sub_chunk(cy as i8) || all_air(c.sub_chunk_at(cy as i8)) {
            (SubChunkRequestResult::SuccessAllAir, Seq::empty())
        } else {
            (SubChunkRequestResult::Success, c.sub_chunk_at(cy as i8).network_bytes(cy as i8))
        },
    }
}

/// A successful answer is the network form of the sub-chunk held at the
/// requested position, labelled with that position's absolute height
/// `center.1 + offset.1` (as an `i8`), its two layers after the header.
pub proof fn lemma_success_at_absolute_height(
    level: Level,
    dimension: i32,
    center: (i32, i32, i32),
    offset: (i8, i8, i8),
)
    requires
        offset_fits(center, offset),
        sub_chunk_answer(level, dimension, center, offset).0 == SubChunkRequestResult::Success,
    ensures
        ({
            let bytes = sub_chunk_answer(level, dimension, center, offset).1;
            let y = (center.1 + offset.1) as i8;
            let c = level.dimensions@[dimension].chunk_at(
                (center.0 + offset.0) as i32,
                (center.2 + offset.2) as i32,
            ).unwrap();
            let sc = c.sub_chunk_at(y);
            &&& level.dimensions@.contains_key(dimension)
            &&& c.has_sub_chunk(y)
            &&& !all_air(sc)
            &&& bytes.len() >= 3
            &&& bytes[0] == 9u8
            &&& bytes[1] == 2u8
            &&& bytes[2] == y as u8
            &&& bytes.subrange(3, 3 + sc.palette(0).serialized().len() as int) == sc.palette(0).serialized()
        }),
{
    let (cx, cy, cz) = offset_position(center, offset);
    let c = level.dimensions@[dimension].chunk_at(cx as i32, cz as i32).unwrap();
    let y = (center.1 + offset.1) as i8;
    assert(cy == center.1 + offset.1);
    c.sub_chunk_at(y).lemma_network_layout(y);
}

/// The answer for the sub-chunk at `offset` from `center`.
pub fn sub_chunk_entry(level: &Level, dimension: i32, center: (i32, i32, i32), offset: (i8, i8, i8)) -> (r:
    SubChunkEntry)
    requires
        level.wf(),
        offset_fits(center, offset),
    ensures
        r.offset == offset,
        (r.result, r.serialized@) == sub_chunk_answer(*level, dimension, center, offset),
{
    let cx = center.0 + offset.0 as i32;
    let cy = center.1 + offset.1 as i32;
    let cz = center.2 + offset.2 as i32;
    let dim = level.dimension(dimension);
    let chunk = match dim {
        Some(d) => d.get_chunk(cx, cz),
        None => None,
    };
    match chunk {
        None => SubChunkEntry {
            offset,
            result: SubChunkRequestResult::LevelChunkDoesntExist,
            serialized: Vec::new(),
        },
        Some(c) => {
            proof {
                let d = level.dimensions@[dimension];
                d.lemma_chunk_wf(cx, cz);
                if c.has_sub_chunk(cy as i8) {
                    c.lemma_sub_chunk_wf(cy as i8);
                }
            }
            match c.get_sub_chunk(cy as i8) {
                None => SubChunkEntry {
                    offset,
                    result: SubChunkRequestResult::SuccessAllAir,
                    serialized: Vec::new(),
                },
                Some(sc) => {
                    if sc.is_all_air() {
                        SubChunkEntry {
                            offset,
                            result: SubChunkRequestResult::SuccessAllAir,
                            serialized: Vec::new(),
                        }
                    } else {
                        SubChunkEntry {
                            offset,
                            result: SubChunkRequestResult::Success,
                            serialized: sc.serialize_network(cy as i8),
                        }
                    }
                },
            }
        },
    }
}

/// The answers for the sub-chunks at `offsets` from `center`, in order.
pub fn handle_sub_chunk_request(
    level: &Level,
    dimension: i32,
    center: (i32, i32, i32),
    offsets: &Vec<(i8, i8, i8)>,
) -> (r: Vec<SubChunkEntry>)
    requires
        level.wf(),
        forall|i: int| 0 <= i < offsets@.len() ==> offset_fits(center, #[trigger] offsets@[i]),
    ensures
        r@.len() == offsets@.len(),
        forall|i: int|
            0 <= i < offsets@.len() ==> {
                &&& (#[trigger] r@[i]).offset == offsets@[i]
                &&& (r@[i].result, r@[i].serialized@) == sub_chunk_answer(
                    *level,
                    dimension,
                    center,
                    offsets@[i],
                )
            },
{
    let mut entries: Vec<SubChunkEntry> = Vec::new();
    let mut i: usize = 0;
    while i < offsets.len()
        invariant
            level.wf(),
            forall|j: int| 0 <= j < offsets@.len() ==> offset_fits(center, #[trigger] offsets@[j]),
            i <= offsets@.len(),
            entries@.len() == i,
            forall|j: int|
                0 <= j < i ==> {
                    &&& (#[trigger] entries@[j]).offset == offsets@[j]
                    &&& (entries@[j].result, entries@[j].serialized@) == sub_chunk_answer(
                        *level,
                        dimension,
                        center,
                        offsets@[j],
                    )
                },
        decreases offsets@.len() - i,
    {
        let entry = sub_chunk_entry(level, dimension, center, offsets[i]);
        entries.push(entry);
        i = i + 1;
    }
    entries
}

/// The height of the highest sub-chunk of `c` that holds a non-air block, or
/// its lowest height when all are air.
pub open spec fn highest_y(c: Chunk) -> i8 {
    match highest_non_air(c.sub_chunks()) {
        Some(i) => c.min_y().wrapping_add(i as i8),
        None => c.min_y(),
    }
}

/// Whether the sub-chunk limit of the chunk at `(x, z)` can be computed in
/// `i8`: for a held chunk its highest height less the dimension's lowest,
/// for one to generate the dimension's span of heights.
pub open spec fn limit_fits(d: Dimension, x: i32, z: i32) -> bool {
    match d.chunk_at(x, z) {
        Some(c) => i8::MIN <= highest_y(c) - d.spec_min_y() <= i8::MAX,
        None => d.spec_max_y() - d.spec_min_y() <= i8::MAX,
    }
}

/// A chunk to send to a player now.
pub struct PendingChunk {
    pub x: i32,
    pub z: i32,
    /// The highest non-air sub-chunk height, counted from the dimension's
    /// lowest.
    pub sub_chunk_limit: u16,
    /// Set when this was the last pending chunk: the view radius, in blocks,
    /// to announce with the chunks sent.
    pub publish_radius: Option<u32>,
}

/// Takes the next chunk pending for `player` out of its queue, generating
/// it if the dimension does not hold it yet, and records it as sent; none
/// when the player has no view radius yet or nothing is pending.
pub fn send_pending_chunks(player: &mut Player, dimension: &mut Dimension, registry: &BlockRegistry) -> (r:
    Option<PendingChunk>)
    requires
        old(dimension).wf(),
        registry.wf(),
        old(dimension).spec_min_y() as int <= old(dimension).spec_max_y() as int + 1,
        old(player).spec_chunks_radius() != 0 && old(player).spec_chunks_pending().len() > 0
            ==> limit_fits(
            *old(dimension),
            old(player).spec_chunks_pending()[0].0,
            old(player).spec_chunks_pending()[0].1,
        ),
    ensures
        final(player).spec_runtime_id() == old(player).spec_runtime_id(),
        final(player).spec_unique_id() == old(player).spec_unique_id(),
        final(player).spec_chunks_radius() == old(player).spec_chunks_radius(),
        final(player).spec_chunks_center() == old(player).spec_chunks_center(),
        old(player).spec_chunks_radius() == 0 || old(player).spec_chunks_pending().len() == 0 ==> {
            &&& r is None
            &&& final(player).spec_chunks_pending() == old(player).spec_chunks_pending()
            &&& final(player).spec_chunks_sent() == old(player).spec_chunks_sent()
            &&& *final(dimension) == *old(dimension)
        },
        old(player).spec_chunks_radius() != 0 && old(player).spec_chunks_pending().len() > 0 ==> {
            let (x, z) = old(player).spec_chunks_pending()[0];
            &&& r is Some
            &&& r.unwrap().x == x
            &&& r.unwrap().z == z
            &&& final(player).spec_chunks_pending() == old(player).spec_chunks_pending().drop_first()
            &&& final(player).spec_chunks_sent() == old(player).spec_chunks_sent().insert(chunk_key(x, z))
            &&& final(dimension).wf()
            &&& final(dimension).spec_min_y() == old(dimension).spec_min_y()
            &&& final(dimension).spec_max_y() == old(dimension).spec_max_y()
            &&& old(dimension).chunk_at(x, z) is Some ==> final(dimension).chunk_map()
                == old(dimension).chunk_map()
            &&& final(dimension).chunk_at(x, z) is Some
            &&& r.unwrap().sub_chunk_limit == (highest_y(final(dimension).chunk_at(x, z).unwrap())
                - old(dimension).spec_min_y()) as u16
            &&& r.unwrap().publish_radius == if final(player).spec_chunks_pending().len() == 0 {
                Some(((old(player).spec_chunks_radius() as u32) << 4u32))
            } else {
                None
            }
        },
{
    let (x, z) = match player.pop_pending_chunk() {
        Some(position) => position,
        None => return None,
    };
    let min_y = dimension.min_y();
    proof {
        assert(dimension.spec_min_y() == min_y);
    }
    let ghost held = dimension.chunk_at(x, z);
    let chunk = dimension.get_or_generate_chunk(registry, x, z);
    proof {
        if held is None {
            let len = chunk.sub_chunks().len();
            match highest_non_air(chunk.sub_chunks()) {
                Some(i) => {
                    crate::level::chunk::lemma_highest_non_air_bound(chunk.sub_chunks());
                    assert(0 <= i < len);
                    assert(len <= 128);
                    let m = chunk.min_y();
                    let ii = i as i8;
                    assert(m + i <= i8::MAX);
                    assert(m.wrapping_add(ii) == m + i);
                },
                None => {},
            }
        }
    }
    let highest = chunk.highest_non_air_sub_chunk_y();
    let limit = (highest - min_y) as u16;
    let publish_radius = player.record_sent(x, z);
    Some(PendingChunk { x, z, sub_chunk_limit: limit, publish_radius })
}

} // verus!
