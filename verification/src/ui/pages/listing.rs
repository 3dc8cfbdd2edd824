//! Identifiers in ascending order, as the tables list them.
use itertools::Itertools;
use std::collections::HashMap;
use vstd::prelude::*;
use vstd::relations::{sorted_by, total_ordering};
use vstd::seq_lib::lemma_sorted_unique;

verus! {

/// No item is greater than a later one.
pub open spec fn is_ascending(list: Seq<u32>) -> bool {
    forall|i: int, j: int| 0 <= i < j < list.len() ==> list[i] <= list[j]
}

/// `list` rearranged into ascending order.
pub open spec fn ascending(list: Seq<u32>) -> Seq<u32> {
    list.sort_by(|a: u32, b: u32| a <= b)
}

/// The members of `ids` in ascending order.
pub open spec fn ascending_members(ids: Set<u32>) -> Seq<u32> {
    ascending(ids.to_seq())
}

/// Calls `itertools::Itertools::sorted` on the items of a vector.
///
/// Trusted: the result holds the items of `ids`, each as often as `ids`
/// holds it, in ascending order.
#[verifier::external_body]
fn sorted(ids: &Vec<u32>) -> (sorted: Vec<u32>)
    ensures
        is_ascending(sorted@),
        sorted@.to_multiset() == ids@.to_multiset(),
{
    ids.iter().copied().sorted().collect()
}

/// The items of `ids` in ascending order.
pub fn in_ascending_order(ids: &Vec<u32>) -> (listing: Vec<u32>)
    ensures
        listing@ == ascending(ids@),
{
    let listing = sorted(ids);
    proof {
        lemma_ascending_is_unique(listing@, ids@);
    }
    listing
}

/// The keys of `map` in ascending order.
pub fn keys_in_ascending_order<V>(map: &HashMap<u32, V>) -> (listing: Vec<u32>)
    ensures
        listing@ == ascending_members(map@.dom()),
{
    let mut keys: Vec<u32> = Vec::new();
    for key in it: map.keys()
        invariant
            keys@ == it.seq().unref().take(it.index() as int),
            it.seq().no_duplicates(),
            it.seq().unref().to_set() == map@.dom(),
    {
        keys.push(*key);
        assert(keys@ =~= it.seq().unref().take(it.index() + 1));
    }
    let listing = sorted(&keys);
    proof {
        assert forall|all: Seq<u32>| #[trigger] all.take(all.len() as int) == all by {
            assert(all.take(all.len() as int) =~= all);
        }
        assert(keys@.to_set() =~= map@.dom());
        lemma_members_once(map@.dom());
        lemma_same_members_same_multiset(keys@, map@.dom().to_seq());
        lemma_ascending_is_unique(listing@, map@.dom().to_seq());
    }
    listing
}

/// `ascending(list)` is in ascending order and holds the items of `list`,
/// each as often as `list` holds it.
pub proof fn lemma_ascending_is_sorted(list: Seq<u32>)
    ensures
        is_ascending(ascending(list)),
        ascending(list).to_multiset() == list.to_multiset(),
        ascending(list).len() == list.len(),
{
    broadcast use vstd::seq_lib::group_to_multiset_ensures;

    let leq = |a: u32, b: u32| a <= b;
    assert(total_ordering(leq));
    list.lemma_sort_by_ensures(leq);
    let sorted = ascending(list);
    assert forall|i: int, j: int| 0 <= i < j < sorted.len() implies sorted[i] <= sorted[j] by {
        assert(leq(sorted[i], sorted[j]));
    }
    assert(sorted.to_multiset().len() == list.to_multiset().len());
}

/// There is one ascending arrangement of a list: a list in ascending order
/// that holds the items of `list`, each as often, is `ascending(list)`.
pub proof fn lemma_ascending_is_unique(sorted: Seq<u32>, list: Seq<u32>)
    requires
        is_ascending(sorted),
        sorted.to_multiset() == list.to_multiset(),
    ensures
        sorted == ascending(list),
{
    let leq = |a: u32, b: u32| a <= b;
    lemma_ascending_is_sorted(list);
    assert(total_ordering(leq));
    assert(sorted_by(sorted, leq));
    list.lemma_sort_by_ensures(leq);
    lemma_sorted_unique(sorted, ascending(list), leq);
}

/// A finite set, written out as a sequence, comes out without repetitions.
pub proof fn lemma_members_once(ids: Set<u32>)
    requires
        ids.finite(),
    ensures
        ids.to_seq().no_duplicates(),
        ids.to_seq().to_set() == ids,
    decreases ids.len(),
{
    ids.lemma_to_seq_to_set_id();
    if ids.len() != 0 {
        let x = ids.choose();
        let rest = ids.remove(x).to_seq();
        lemma_members_once(ids.remove(x));
        assert(ids.to_seq() =~= seq![x] + rest);
        assert(!rest.contains(x)) by {
            if rest.contains(x) {
                assert(rest.to_set().contains(x));
            }
        }
        assert forall|i: int, j: int|
            0 <= i < ids.to_seq().len() && 0 <= j < ids.to_seq().len() && i != j implies ids.to_seq()[i]
            != ids.to_seq()[j] by {
            if i > 0 && j > 0 {
                assert(rest[i - 1] != rest[j - 1]);
            } else if i == 0 {
                assert(rest[j - 1] == ids.to_seq()[j]);
            } else {
                assert(rest[i - 1] == ids.to_seq()[i]);
            }
        }
    }
}

/// Two lists without repetitions that hold the same items hold each as often.
pub proof fn lemma_same_members_same_multiset(first: Seq<u32>, second: Seq<u32>)
    requires
        first.no_duplicates(),
        second.no_duplicates(),
        first.to_set() == second.to_set(),
    ensures
        first.to_multiset() == second.to_multiset(),
{
    broadcast use vstd::seq_lib::group_to_multiset_ensures;

    first.lemma_multiset_has_no_duplicates();
    second.lemma_multiset_has_no_duplicates();
    assert forall|id: u32| first.to_multiset().count(id) == second.to_multiset().count(id) by {
        assert(first.contains(id) <==> first.to_set().contains(id));
        assert(second.contains(id) <==> second.to_set().contains(id));
    }
    assert(first.to_multiset() =~= second.to_multiset());
}

} // verus!
