//! The integer metrics of one table: how few addresses carry nine tenths of
//! the accesses, and how the counts fall into 1024-byte regions.

use crate::frequency::{
    count_sum, lemma_count_le_sum, lemma_count_sum_insert, lemma_count_sum_remove, FrequencyTable,
};
use crate::rank::lists;
use std::collections::HashMap;
use vstd::prelude::*;

verus! {

broadcast use vstd::std_specs::hash::group_hash_axioms;

/// The sum of the counts of `entries`.
pub open spec fn entry_sum(entries: Seq<(u64, u64)>) -> nat
    decreases entries.len(),
{
    if entries.len() == 0 {
        0
    } else {
        entry_sum(entries.drop_last()) + entries.last().1 as nat
    }
}

/// Nine tenths of `total`, rounded down.
pub open spec fn threshold(total: u64) -> nat {
    (9 * total as nat) / 10
}

/// How many entries from the front can be taken before the sum of their
/// counts passes `budget`. The entry that would pass it is not taken.
pub open spec fn covered(entries: Seq<(u64, u64)>, budget: int) -> nat
    decreases entries.len(),
{
    if entries.len() == 0 || entries[0].1 > budget {
        0
    } else {
        1 + covered(entries.drop_first(), budget - entries[0].1)
    }
}

/// How many of the first entries stay, taken together, within nine tenths
/// of `total`; zero where `total` is zero.
pub open spec fn ninety_count(entries: Seq<(u64, u64)>, total: u64) -> nat {
    if total == 0 {
        0
    } else {
        covered(entries, threshold(total) as int)
    }
}

/// The entries that are covered stay within the budget, and the next one
/// would pass it.
pub proof fn lemma_covered_is_longest_prefix(entries: Seq<(u64, u64)>, budget: int)
    requires
        0 <= budget,
    ensures
        covered(entries, budget) <= entries.len(),
        entry_sum(entries.take(covered(entries, budget) as int)) <= budget,
        covered(entries, budget) < entries.len() ==> entry_sum(
            entries.take(covered(entries, budget) as int + 1),
        ) > budget,
    decreases entries.len(),
{
    let n = covered(entries, budget);
    if entries.len() == 0 {
        assert(entries.take(0).len() == 0);
    } else if entries[0].1 > budget {
        assert(entries.take(0).len() == 0);
        assert(entries.take(1).drop_last().len() == 0);
        assert(entry_sum(entries.take(1).drop_last()) == 0);
        assert(entries.take(1).last() == entries[0]);
    } else {
        let rest = entries.drop_first();
        lemma_covered_is_longest_prefix(rest, budget - entries[0].1);
        lemma_entry_sum_first(entries.take(n as int));
        assert(entries.take(n as int).drop_first() == rest.take(n - 1));
        if n < entries.len() {
            lemma_entry_sum_first(entries.take(n as int + 1));
            assert(entries.take(n as int + 1).drop_first() == rest.take(n as int));
        }
    }
}

/// The sum can be taken from the first entry on as well.
pub proof fn lemma_entry_sum_first(entries: Seq<(u64, u64)>)
    requires
        entries.len() > 0,
    ensures
        entry_sum(entries) == entries[0].1 + entry_sum(entries.drop_first()),
    decreases entries.len(),
{
    if entries.len() == 1 {
        assert(entry_sum(entries.drop_last()) == 0);
        assert(entry_sum(entries.drop_first()) == 0);
    } else {
        lemma_entry_sum_first(entries.drop_last());
        assert(entries.drop_last().drop_first() == entries.drop_first().drop_last());
        assert(entries.drop_first().last() == entries.last());
    }
}

/// Entries that list a table add up to what the table adds up to.
pub proof fn lemma_lists_sum(entries: Seq<(u64, u64)>, table: Map<u64, u64>)
    requires
        table.dom().finite(),
        lists(entries, table),
    ensures
        entry_sum(entries) == count_sum(table),
    decreases entries.len(),
{
    if entries.len() == 0 {
        assert(table.dom().len() == 0);
    } else {
        let last = entries.last();
        assert(table.contains_key(entries[entries.len() - 1].0));
        lemma_count_sum_remove(table, last.0);
        let rest = table.remove(last.0);
        assert forall|i: int| 0 <= i < entries.drop_last().len() implies rest.contains_key(
            #[trigger] entries.drop_last()[i].0,
        ) && rest[entries.drop_last()[i].0] == entries.drop_last()[i].1 by {
            assert(table.contains_key(entries[i].0));
            assert(entries[i].0 != entries[entries.len() - 1].0);
        }
        lemma_lists_sum(entries.drop_last(), rest);
    }
}

/// Accounting: entries that list a table add up to the table's total, so
/// what the statistics are given always matches what was counted.
pub proof fn lemma_ranked_total(table: FrequencyTable, ranked: Seq<(u64, u64)>)
    requires
        table.wf(),
        lists(ranked, table@),
    ensures
        entry_sum(ranked) == table.total(),
{
    lemma_lists_sum(ranked, table@);
}

/// The count of the most frequent addresses is never more than there are
/// entries, and it is zero where there were no accesses.
pub proof fn lemma_ninety_count_bounds(entries: Seq<(u64, u64)>, total: u64)
    ensures
        ninety_count(entries, total) <= entries.len(),
        total == 0 ==> ninety_count(entries, total) == 0,
{
    lemma_covered_is_longest_prefix(entries, threshold(total) as int);
}

/// How many of the most frequent addresses of `v` make up, taken together,
/// no more than nine tenths of `total` accesses.
///
/// The entries are walked from the front with a running sum of counts. The
/// walk stops before the entry that brings the sum past nine tenths of
/// `total`, rounded down; an entry that brings the sum exactly there is
/// still taken. With a `total` of zero the answer is zero.
pub fn ninety_perc(v: &Vec<(u64, u64)>, total: u64) -> (n: u64)
    ensures
        n == ninety_count(v@, total),
        n <= v.len(),
        total == 0 ==> n == 0,
{
    if total == 0 {
        return 0;
    }
    let limit: u64 = total / 10 * 9 + total % 10 * 9 / 10;
    assert(limit == threshold(total));
    let mut running: u64 = 0;
    let mut unique: usize = 0;
    assert(v@.skip(0) == v@);
    while unique < v.len()
        invariant
            unique <= v.len(),
            running <= limit,
            covered(v@, limit as int) == unique + covered(v@.skip(unique as int), limit - running),
        ensures
            unique <= v.len(),
            covered(v@, limit as int) == unique,
        decreases v.len() - unique,
    {
        let count = v[unique].1;
        proof {
            assert(v@.skip(unique as int)[0] == v@[unique as int]);
            assert(v@.skip(unique as int).drop_first() == v@.skip(unique + 1));
        }
        if count > limit - running {
            break;
        }
        running = running + count;
        unique = unique + 1;
    }
    unique as u64
}

/// The 1024-byte region that `addr` lies in.
pub open spec fn region(addr: u64) -> u64 {
    addr >> 10
}

/// The table after `count` more accesses to `key`.
pub open spec fn add_count(table: Map<u64, u64>, key: u64, count: u64) -> Map<u64, u64> {
    if table.contains_key(key) {
        table.insert(key, (table[key] + count) as u64)
    } else {
        table.insert(key, count)
    }
}

/// The counts of `entries` by region: the counts of all addresses of one
/// region are added up.
pub open spec fn coarsen(entries: Seq<(u64, u64)>) -> Map<u64, u64>
    decreases entries.len(),
{
    if entries.len() == 0 {
        Map::empty()
    } else {
        add_count(coarsen(entries.drop_last()), region(entries.last().0), entries.last().1)
    }
}

/// Coarsening keeps the sum of the counts and makes no key that was not
/// there: a table by region has no more keys than there were entries.
pub proof fn lemma_coarsen(entries: Seq<(u64, u64)>)
    requires
        entry_sum(entries) <= u64::MAX,
    ensures
        coarsen(entries).dom().finite(),
        coarsen(entries).dom().len() <= entries.len(),
        count_sum(coarsen(entries)) == entry_sum(entries),
    decreases entries.len(),
{
    if entries.len() > 0 {
        let before = coarsen(entries.drop_last());
        let key = region(entries.last().0);
        let count = entries.last().1;
        lemma_coarsen(entries.drop_last());
        if before.contains_key(key) {
            lemma_count_le_sum(before, key);
            lemma_count_sum_insert(before, key, (before[key] + count) as u64);
            lemma_count_sum_remove(before, key);
        } else {
            lemma_count_sum_insert(before, key, count);
            assert(before.remove(key) == before);
        }
    }
}

/// Coarsening never makes more keys: the table by region of the entries of
/// a table has no more keys than the table itself.
pub proof fn lemma_coarsen_no_more_keys(entries: Seq<(u64, u64)>, table: Map<u64, u64>)
    requires
        table.dom().finite(),
        lists(entries, table),
        count_sum(table) <= u64::MAX,
    ensures
        coarsen(entries).dom().len() <= table.dom().len(),
{
    lemma_lists_sum(entries, table);
    lemma_coarsen(entries);
}

/// The counts of `v` by 1024-byte region.
///
/// The sum of the counts has to fit a `u64`, as it does for the entries of
/// a table.
pub fn local_counts(v: &Vec<(u64, u64)>) -> (local: HashMap<u64, u64>)
    requires
        entry_sum(v@) <= u64::MAX,
    ensures
        local@ == coarsen(v@),
        local@.dom().len() <= v.len(),
        count_sum(local@) == entry_sum(v@),
{
    let mut local: HashMap<u64, u64> = HashMap::new();
    let mut i: usize = 0;
    while i < v.len()
        invariant
            i <= v.len(),
            entry_sum(v@) <= u64::MAX,
            local@ == coarsen(v@.take(i as int)),
        decreases v.len() - i,
    {
        let (addr, count) = v[i];
        let key = addr >> 10;
        proof {
            assert(v@.take(i + 1).drop_last() == v@.take(i as int));
            lemma_entry_sum_prefix(v@, i + 1);
            lemma_coarsen(v@.take(i as int));
            if local@.contains_key(key) {
                lemma_count_le_sum(local@, key);
            }
        }
        let sum: u64 = match local.get(&key) {
            Some(seen) => *seen + count,
            None => count,
        };
        local.insert(key, sum);
        i += 1;
    }
    proof {
        assert(v@.take(i as int) == v@);
        lemma_coarsen(v@);
    }
    local
}

/// A prefix adds up to no more than the whole.
pub proof fn lemma_entry_sum_prefix(entries: Seq<(u64, u64)>, n: int)
    requires
        0 <= n <= entries.len(),
    ensures
        entry_sum(entries.take(n)) <= entry_sum(entries),
    decreases entries.len() - n,
{
    if n < entries.len() {
        lemma_entry_sum_prefix(entries, n + 1);
        assert(entries.take(n + 1).drop_last() == entries.take(n));
    } else {
        assert(entries.take(n) == entries);
    }
}

} // verus!
