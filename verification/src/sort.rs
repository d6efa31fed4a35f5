//! Ordering positions by string keys.
use vstd::prelude::*;

use crate::text::{
    chars_less, lemma_chars_less_asymmetric, lemma_chars_less_total, lemma_chars_less_transitive,
    str_less,
};

verus! {

/// Whether position `i` comes before position `j` when positions are ordered
/// by their keys, ties kept in position order.
pub open spec fn precedes(keys: Seq<Seq<char>>, i: int, j: int) -> bool {
    chars_less(keys[i], keys[j]) || (keys[i] == keys[j] && i < j)
}

/// Whether `order` lists each position of `keys` once, ordered by the keys,
/// with equal keys in position order: the order a stable sort by key gives.
pub open spec fn sorted_by_key(keys: Seq<Seq<char>>, order: Seq<usize>) -> bool {
    &&& order.len() == keys.len()
    &&& forall|p: int| 0 <= p < order.len() ==> #[trigger] order[p] < keys.len()
    &&& forall|p: int, q: int| 0 <= p < q < order.len() ==> precedes(keys, #[trigger] order[p] as int, #[trigger] order[q] as int)
}

/// The positions of `keys`, ordered by key, equal keys in position order.
pub fn sort_positions(keys: &Vec<String>) -> (r: Vec<usize>)
    ensures
        sorted_by_key(keys@.map_values(|k: String| k@), r@),
{
    let ghost ks = keys@.map_values(|k: String| k@);
    let mut order: Vec<usize> = Vec::new();
    let mut i: usize = 0;
    while i < keys.len()
        invariant
            i <= keys@.len(),
            ks == keys@.map_values(|k: String| k@),
            order@.len() == i,
            forall|p: int| 0 <= p < order@.len() ==> #[trigger] order@[p] < i,
            forall|p: int, q: int|
                0 <= p < q < order@.len() ==> precedes(ks, #[trigger] order@[p] as int, #[trigger] order@[q] as int),
        decreases keys@.len() - i,
    {
        let mut k: usize = 0;
        while k < order.len() && !str_less(keys[i].as_str(), keys[order[k]].as_str())
            invariant
                i < keys@.len(),
                k <= order@.len(),
                ks == keys@.map_values(|k: String| k@),
                forall|p: int| 0 <= p < order@.len() ==> #[trigger] order@[p] < i,
                forall|p: int| 0 <= p < k ==> !chars_less(ks[i as int], ks[#[trigger] order@[p] as int]),
            decreases order@.len() - k,
        {
            k = k + 1;
        }
        let ghost before = order@;
        proof {
            assert forall|p: int| 0 <= p < k implies precedes(ks, #[trigger] before[p] as int, i as int) by {
                lemma_chars_less_total(ks[i as int], ks[before[p] as int]);
            }
            assert forall|q: int| k <= q < before.len() implies precedes(ks, i as int, #[trigger] before[q] as int) by {
                // the key at `k` is greater than the new one, and the keys from `k` on do not fall
                assert(chars_less(ks[i as int], ks[before[k as int] as int]));
                if q > k {
                    assert(precedes(ks, before[k as int] as int, before[q] as int));
                    if chars_less(ks[before[k as int] as int], ks[before[q] as int]) {
                        lemma_chars_less_transitive(
                            ks[i as int],
                            ks[before[k as int] as int],
                            ks[before[q] as int],
                        );
                    }
                }
            }
        }
        order.insert(k, i);
        proof {
            assert forall|p: int, q: int| 0 <= p < q < order@.len() implies precedes(
                ks,
                #[trigger] order@[p] as int,
                #[trigger] order@[q] as int,
            ) by {
                if p < k && q < k {
                    assert(order@[p] == before[p] && order@[q] == before[q]);
                } else if p < k && q == k {
                } else if p < k {
                    assert(order@[p] == before[p] && order@[q] == before[q - 1]);
                } else if p == k {
                    assert(order@[q] == before[q - 1]);
                } else {
                    assert(order@[p] == before[p - 1] && order@[q] == before[q - 1]);
                }
            }
        }
        i = i + 1;
    }
    order
}

/// No position comes before itself, and of two positions at most one comes
/// first.
pub proof fn lemma_precedes_asymmetric(keys: Seq<Seq<char>>, i: int, j: int)
    ensures
        precedes(keys, i, j) ==> !precedes(keys, j, i),
{
    lemma_chars_less_asymmetric(keys[i], keys[j]);
    lemma_chars_less_asymmetric(keys[j], keys[i]);
}

} // verus!
