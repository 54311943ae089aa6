//! Ranking: the entries of a table, most frequent first.

use std::cmp::Ordering;
use std::collections::HashMap;
use vstd::prelude::*;
use vstd::std_specs::iter::IteratorSpec;

verus! {

broadcast use vstd::std_specs::hash::group_hash_axioms;

/// Whether `entries` lists `table`: every address of the table once, each
/// with its count, and nothing else.
pub open spec fn lists(entries: Seq<(u64, u64)>, table: Map<u64, u64>) -> bool {
    &&& entries.len() == table.dom().len()
    &&& forall|i: int|
        0 <= i < entries.len() ==> table.contains_key(#[trigger] entries[i].0) && table[entries[i].0]
            == entries[i].1
    &&& forall|i: int, j: int|
        0 <= i < j < entries.len() ==> #[trigger] entries[i].0 != #[trigger] entries[j].0
}

/// Whether the counts of `entries` never rise from one entry to the next.
pub open spec fn descending(entries: Seq<(u64, u64)>) -> bool {
    forall|i: int, j: int|
        0 <= i < j < entries.len() ==> #[trigger] entries[i].1 >= #[trigger] entries[j].1
}

/// The entries of a table, in the order in which the map hands them out.
pub fn entries_of(hmap: &HashMap<u64, u64>) -> (entries: Vec<(u64, u64)>)
    ensures
        lists(entries@, hmap@),
{
    let mut entries: Vec<(u64, u64)> = Vec::new();
    for entry in it: hmap.iter()
        invariant
            it.seq() == hmap.iter().remaining(),
            it.seq().no_duplicates(),
            entries.len() == it.index(),
            forall|j: int|
                0 <= j < it.index() ==> #[trigger] entries@[j] == (*it.seq()[j].0, *it.seq()[j].1),
    {
        entries.push((*entry.0, *entry.1));
    }
    proof {
        let handed = hmap.iter().remaining();
        assert(entries.len() == handed.len());
        assert(handed.len() == hmap@.dom().len());
        assert forall|i: int| 0 <= i < entries.len() implies hmap@.contains_key(
            #[trigger] entries@[i].0,
        ) && hmap@[entries@[i].0] == entries@[i].1 by {
            assert(hmap@.contains_key(*handed[i].0));
        }
        assert forall|i: int, j: int| 0 <= i < j < entries.len() implies #[trigger] entries@[i].0
            != #[trigger] entries@[j].0 by {
            assert(hmap@.contains_key(*handed[i].0));
            assert(hmap@.contains_key(*handed[j].0));
            if entries@[i].0 == entries@[j].0 {
                assert(handed[i] == handed[j]);
            }
        }
    }
    entries
}

/// Entries that list a table leave out none of its addresses.
pub proof fn lemma_lists_cover(entries: Seq<(u64, u64)>, table: Map<u64, u64>, addr: u64)
    requires
        table.dom().finite(),
        lists(entries, table),
        table.contains_key(addr),
    ensures
        exists|i: int| 0 <= i < entries.len() && #[trigger] entries[i].0 == addr,
    decreases entries.len(),
{
    if entries.len() == 0 {
        assert(table.dom().len() == 0);
        assert(table.dom().contains(addr));
    } else {
        let last = entries.last();
        assert(table.contains_key(entries[entries.len() - 1].0));
        if last.0 == addr {
            assert(entries[entries.len() - 1].0 == addr);
        } else {
            let rest = table.remove(last.0);
            assert forall|i: int| 0 <= i < entries.drop_last().len() implies rest.contains_key(
                #[trigger] entries.drop_last()[i].0,
            ) && rest[entries.drop_last()[i].0] == entries.drop_last()[i].1 by {
                assert(table.contains_key(entries[i].0));
                assert(entries[i].0 != entries[entries.len() - 1].0);
            }
            lemma_lists_cover(entries.drop_last(), rest, addr);
            let i = choose|i: int|
                0 <= i < entries.drop_last().len() && #[trigger] entries.drop_last()[i].0 == addr;
            assert(entries[i].0 == addr);
        }
    }
}

/// The order of ranking: an entry with a larger count comes before one
/// with a smaller count, and entries with equal counts are not told apart.
pub fn count_order(a: &(u64, u64), b: &(u64, u64)) -> (r: Ordering)
    ensures
        a.1 > b.1 ==> r == Ordering::Less,
        a.1 == b.1 ==> r == Ordering::Equal,
        a.1 < b.1 ==> r == Ordering::Greater,
{
    if a.1 > b.1 {
        Ordering::Less
    } else if a.1 < b.1 {
        Ordering::Greater
    } else {
        Ordering::Equal
    }
}

/// `sort_unstable_by` of the standard library, with [`count_order`] as the
/// order: afterwards the vector holds the entries it held before, each as
/// often as before, and no count rises from one entry to the next. Which of
/// two entries with equal counts comes first is left open.
#[verifier::external_body]
pub(crate) fn sort_by_count(entries: &mut Vec<(u64, u64)>)
    ensures
        final(entries)@.to_multiset() == old(entries)@.to_multiset(),
        descending(final(entries)@),
{
    entries.sort_unstable_by(|a, b| count_order(a, b));
}

/// Entries that list a table still list it in any other order.
pub proof fn lemma_lists_permuted(
    entries: Seq<(u64, u64)>,
    permuted: Seq<(u64, u64)>,
    table: Map<u64, u64>,
)
    requires
        lists(entries, table),
        entries.to_multiset() == permuted.to_multiset(),
    ensures
        lists(permuted, table),
{
    vstd::seq_lib::to_multiset_len(entries);
    vstd::seq_lib::to_multiset_len(permuted);
    assert forall|i: int| 0 <= i < permuted.len() implies table.contains_key(
        #[trigger] permuted[i].0,
    ) && table[permuted[i].0] == permuted[i].1 by {
        assert(permuted.contains(permuted[i]));
        vstd::seq_lib::to_multiset_contains(permuted, permuted[i]);
        vstd::seq_lib::to_multiset_contains(entries, permuted[i]);
        assert(entries.contains(permuted[i]));
        let j = choose|j: int| 0 <= j < entries.len() && entries[j] == permuted[i];
        assert(table.contains_key(entries[j].0));
    }
    assert forall|i: int, j: int|
        0 <= i < entries.len() && 0 <= j < entries.len() && i != j implies entries[i]
        != entries[j] by {
        if i < j {
            assert(entries[i].0 != entries[j].0);
        } else {
            assert(entries[j].0 != entries[i].0);
        }
    }
    entries.lemma_multiset_has_no_duplicates();
    permuted.lemma_multiset_has_no_duplicates_conv();
    assert forall|i: int, j: int| 0 <= i < j < permuted.len() implies #[trigger] permuted[i].0
        != #[trigger] permuted[j].0 by {
        assert(table.contains_key(permuted[i].0));
        assert(table.contains_key(permuted[j].0));
        if permuted[i].0 == permuted[j].0 {
            assert(permuted[i] == permuted[j]);
        }
    }
}

/// The entries of a table, most frequent first.
///
/// Every address of the table is listed once, with its count. Entries with
/// equal counts come in no particular order.
pub fn get_sorted_vec(hmap: &HashMap<u64, u64>) -> (ranked: Vec<(u64, u64)>)
    ensures
        lists(ranked@, hmap@),
        descending(ranked@),
{
    let mut ranked = entries_of(hmap);
    let ghost unsorted = ranked@;
    sort_by_count(&mut ranked);
    proof {
        lemma_lists_permuted(unsorted, ranked@, hmap@);
    }
    ranked
}

} // verus!
