//! The insertion-ordered set of `indexmap`, seen through the sequence of its
//! items in insertion order.
use vstd::prelude::*;

use indexmap::IndexSet;

verus! {

#[verifier::external_type_specification]
#[verifier::external_body]
#[verifier::reject_recursive_types(T)]
#[verifier::reject_recursive_types(S)]
pub struct ExIndexSet<T, S>(IndexSet<T, S>);

/// The items of an `IndexSet<i32>`, in insertion order.
pub uninterp spec fn index_set_items(set: IndexSet<i32>) -> Seq<i32>;

/// `IndexSet::new`: an empty set.
#[verifier::external_body]
pub(crate) fn index_set_new() -> (r: IndexSet<i32>)
    ensures
        index_set_items(r) == Seq::<i32>::empty(),
{
    IndexSet::new()
}

/// `IndexSet::len`: the number of items.
#[verifier::external_body]
pub(crate) fn index_set_len(set: &IndexSet<i32>) -> (r: usize)
    ensures
        r == index_set_items(*set).len(),
{
    set.len()
}

/// `IndexSet::index` (`set[i]`): the item at position `i`; it panics past the
/// end, which `requires` rules out.
#[verifier::external_body]
pub(crate) fn index_set_at(set: &IndexSet<i32>, i: usize) -> (r: i32)
    requires
        i < index_set_items(*set).len(),
    ensures
        r == index_set_items(*set)[i as int],
{
    set[i]
}

/// `IndexSet::insert`: an item already present leaves the set unchanged and
/// gives `false`; a new item is appended at the end and gives `true`.
#[verifier::external_body]
pub(crate) fn index_set_insert(set: &mut IndexSet<i32>, value: i32) -> (r: bool)
    ensures
        index_set_items(*old(set)).contains(value) ==> {
            &&& index_set_items(*final(set)) == index_set_items(*old(set))
            &&& !r
        },
        !index_set_items(*old(set)).contains(value) ==> {
            &&& index_set_items(*final(set)) == index_set_items(*old(set)).push(value)
            &&& r
        },
{
    set.insert(value)
}

/// `IndexSet::insert_full`: an item already present leaves the set unchanged
/// and gives its position and `false`; a new item is appended at the end and
/// gives its position and `true`.
#[verifier::external_body]
pub(crate) fn index_set_insert_full(set: &mut IndexSet<i32>, value: i32) -> (r: (usize, bool))
    ensures
        index_set_items(*old(set)).contains(value) ==> {
            &&& index_set_items(*final(set)) == index_set_items(*old(set))
            &&& r.0 < index_set_items(*old(set)).len()
            &&& index_set_items(*old(set))[r.0 as int] == value
            &&& !r.1
        },
        !index_set_items(*old(set)).contains(value) ==> {
            &&& index_set_items(*final(set)) == index_set_items(*old(set)).push(value)
            &&& r.0 == index_set_items(*old(set)).len()
            &&& r.1
        },
{
    set.insert_full(value)
}

} // verus!
