//! Per-address access counts, kept apart for reads and writes.

use crate::error::TraceError;
use crate::event::{AddressRange, Communication, Computation, Edge, Event, MemType};
use crate::event::{edge_starts, starts};
use crate::rank::{entries_of, lemma_lists_cover, lists};
use crate::stats::{entry_sum, lemma_entry_sum_prefix, lemma_lists_sum};
use std::collections::HashMap;
use vstd::prelude::*;

verus! {

broadcast use vstd::std_specs::hash::group_hash_axioms;

/// The sum of all counts of a finite table.
pub open spec fn count_sum(table: Map<u64, u64>) -> nat
    decreases table.dom().len(),
    when table.dom().finite()
{
    if table.dom().len() == 0 {
        0
    } else {
        let addr = table.dom().choose();
        table[addr] as nat + count_sum(table.remove(addr))
    }
}

/// The table after one more access to `addr`: a first access enters the
/// address with a count of one, a later one adds one to its count.
pub open spec fn bump(table: Map<u64, u64>, addr: u64) -> Map<u64, u64> {
    if table.contains_key(addr) {
        table.insert(addr, (table[addr] + 1) as u64)
    } else {
        table.insert(addr, 1)
    }
}

/// The table after one access to each of `addrs`, in order.
pub open spec fn bump_all(table: Map<u64, u64>, addrs: Seq<u64>) -> Map<u64, u64>
    decreases addrs.len(),
{
    if addrs.len() == 0 {
        table
    } else {
        bump(bump_all(table, addrs.drop_last()), addrs.last())
    }
}

/// The sum of a table can be taken from any of its addresses first.
pub proof fn lemma_count_sum_remove(table: Map<u64, u64>, addr: u64)
    requires
        table.dom().finite(),
        table.contains_key(addr),
    ensures
        count_sum(table) == table[addr] + count_sum(table.remove(addr)),
    decreases table.dom().len(),
{
    let first = table.dom().choose();
    if first != addr {
        lemma_count_sum_remove(table.remove(first), addr);
        lemma_count_sum_remove(table.remove(addr), first);
        assert(table.remove(first).remove(addr) == table.remove(addr).remove(first));
    }
}

/// Setting the count of one address changes the sum by what the count
/// changes.
pub proof fn lemma_count_sum_insert(table: Map<u64, u64>, addr: u64, count: u64)
    requires
        table.dom().finite(),
    ensures
        count_sum(table.insert(addr, count)) == count_sum(table.remove(addr)) + count,
{
    let after = table.insert(addr, count);
    lemma_count_sum_remove(after, addr);
    assert(after.remove(addr) == table.remove(addr));
}

/// No count is larger than the sum of all counts.
pub proof fn lemma_count_le_sum(table: Map<u64, u64>, addr: u64)
    requires
        table.dom().finite(),
        table.contains_key(addr),
    ensures
        table[addr] <= count_sum(table),
{
    lemma_count_sum_remove(table, addr);
}

/// One more access adds one to the sum, as long as the count fits.
pub proof fn lemma_count_sum_bump(table: Map<u64, u64>, addr: u64)
    requires
        table.dom().finite(),
        table.contains_key(addr) ==> table[addr] < u64::MAX,
    ensures
        count_sum(bump(table, addr)) == count_sum(table) + 1,
{
    if table.contains_key(addr) {
        lemma_count_sum_insert(table, addr, (table[addr] + 1) as u64);
        lemma_count_sum_remove(table, addr);
    } else {
        lemma_count_sum_insert(table, addr, 1);
        assert(table.remove(addr) == table);
    }
}

/// Counting a single address is one more access to it.
pub proof fn lemma_bump_all_one(table: Map<u64, u64>, addrs: Seq<u64>)
    ensures
        addrs.len() == 1 ==> bump_all(table, addrs) == bump(table, addrs[0]),
{
    if addrs.len() == 1 {
        assert(bump_all(table, addrs.drop_last()) == table);
    }
}

/// Counting `first` and then `second` is counting the two in a row.
pub proof fn lemma_bump_all_concat(table: Map<u64, u64>, first: Seq<u64>, second: Seq<u64>)
    ensures
        bump_all(table, first + second) == bump_all(bump_all(table, first), second),
    decreases second.len(),
{
    if second.len() == 0 {
        assert(first + second == first);
    } else {
        lemma_bump_all_concat(table, first, second.drop_last());
        assert((first + second).drop_last() == first + second.drop_last());
        assert((first + second).last() == second.last());
    }
}

/// The edges of a prefix hold no more ranges than all the edges.
pub proof fn lemma_edge_starts_prefix(edges: Seq<Edge>, n: int)
    requires
        0 <= n <= edges.len(),
    ensures
        edge_starts(edges.take(n)).len() <= edge_starts(edges).len(),
    decreases edges.len() - n,
{
    if n < edges.len() {
        lemma_edge_starts_prefix(edges, n + 1);
        assert(edges.take(n + 1).drop_last() == edges.take(n));
    } else {
        assert(edges.take(n) == edges);
    }
}

/// An access counts the same before a batch of accesses as after it.
pub proof fn lemma_bump_before(table: Map<u64, u64>, addr: u64, addrs: Seq<u64>)
    ensures
        bump_all(bump(table, addr), addrs) == bump(bump_all(table, addrs), addr),
    decreases addrs.len(),
{
    if addrs.len() > 0 {
        lemma_bump_before(table, addr, addrs.drop_last());
        let counted = bump_all(table, addrs.drop_last());
        assert(bump(bump(counted, addr), addrs.last()) == bump(bump(counted, addrs.last()), addr));
    }
}

/// Two batches of accesses make the same table whichever is counted
/// first: tables kept apart can be merged in any order.
pub proof fn lemma_counting_order(table: Map<u64, u64>, first: Seq<u64>, second: Seq<u64>)
    ensures
        bump_all(table, first + second) == bump_all(table, second + first),
    decreases second.len(),
{
    lemma_bump_all_concat(table, first, second);
    lemma_bump_all_concat(table, second, first);
    if second.len() > 0 {
        let rest = second.drop_last();
        lemma_counting_order(table, first, rest);
        lemma_bump_all_concat(table, first, rest);
        lemma_bump_all_concat(table, rest, first);
        lemma_bump_before(bump_all(table, rest), second.last(), first);
    }
}

/// Counts one more access to `addr` in a map from address to count.
///
/// A count that has reached `u64::MAX` cannot be raised.
pub fn update_addrs_counter(counter: &mut HashMap<u64, u64>, addr: u64)
    requires
        old(counter)@.contains_key(addr) ==> old(counter)@[addr] < u64::MAX,
    ensures
        final(counter)@ == bump(old(counter)@, addr),
{
    let count: u64 = match counter.get(&addr) {
        Some(seen) => *seen + 1,
        None => 1,
    };
    counter.insert(addr, count);
}

/// The accesses of one kind seen so far: how often each address was
/// touched, and how many accesses there were in all.
pub struct FrequencyTable {
    counts: HashMap<u64, u64>,
    total: u64,
}

impl View for FrequencyTable {
    type V = Map<u64, u64>;

    /// The count of each address that was touched at least once.
    closed spec fn view(&self) -> Map<u64, u64> {
        self.counts@
    }
}

impl FrequencyTable {
    /// The number of accesses counted.
    pub closed spec fn total(&self) -> nat {
        self.total as nat
    }

    /// The table accounts for every access: its counts add up to its
    /// total, and no address is listed with a count of zero.
    pub open spec fn wf(&self) -> bool {
        &&& self@.dom().finite()
        &&& count_sum(self@) == self.total()
        &&& self.total() <= u64::MAX
        &&& forall|addr: u64| self@.contains_key(addr) ==> self@[addr] >= 1
    }

    /// A table that has seen nothing.
    pub fn new() -> (table: FrequencyTable)
        ensures
            table.wf(),
            table@ == Map::<u64, u64>::empty(),
            table.total() == 0,
    {
        FrequencyTable { counts: HashMap::new(), total: 0 }
    }

    /// The table with the given counts, as a partial table kept elsewhere
    /// may hand them over. There is none where an address is listed with a
    /// count of zero, and none where the counts add up to more than
    /// `u64::MAX`.
    pub fn from_counts(counts: HashMap<u64, u64>) -> (r: Option<FrequencyTable>)
        ensures
            r is Some <==> count_sum(counts@) <= u64::MAX && forall|addr: u64|
                counts@.contains_key(addr) ==> counts@[addr] >= 1,
            r matches Some(table) ==> table.wf() && table@ == counts@,
    {
        let entries = entries_of(&counts);
        proof {
            lemma_lists_sum(entries@, counts@);
        }
        let mut total: u64 = 0;
        let mut i: usize = 0;
        while i < entries.len()
            invariant
                i <= entries.len(),
                lists(entries@, counts@),
                entry_sum(entries@) == count_sum(counts@),
                total == entry_sum(entries@.take(i as int)),
                forall|j: int| 0 <= j < i ==> (#[trigger] entries[j]).1 >= 1,
            decreases entries.len() - i,
        {
            let count = entries[i].1;
            proof {
                assert(entries@.take(i + 1).drop_last() == entries@.take(i as int));
                lemma_entry_sum_prefix(entries@, i + 1);
                assert(counts@.contains_key(entries[i as int].0));
            }
            if count == 0 {
                return None;
            }
            match total.checked_add(count) {
                Some(sum) => {
                    total = sum;
                },
                None => {
                    return None;
                },
            }
            i += 1;
        }
        proof {
            assert(entries@.take(i as int) == entries@);
            assert forall|addr: u64| counts@.contains_key(addr) implies counts@[addr] >= 1 by {
                lemma_lists_cover(entries@, counts@, addr);
            }
        }
        Some(FrequencyTable { counts, total })
    }

    /// Counts one access to `addr`. Fails, and changes nothing, only where
    /// the total has reached `u64::MAX`.
    pub fn observe(&mut self, addr: u64) -> (r: Result<(), TraceError>)
        requires
            old(self).wf(),
        ensures
            final(self).wf(),
            match r {
                Ok(()) => {
                    &&& old(self).total() < u64::MAX
                    &&& final(self)@ == bump(old(self)@, addr)
                    &&& final(self).total() == old(self).total() + 1
                },
                Err(e) => {
                    &&& e == TraceError::Overflow
                    &&& old(self).total() == u64::MAX
                    &&& final(self)@ == old(self)@
                    &&& final(self).total() == old(self).total()
                },
            },
    {
        if self.total == u64::MAX {
            return Err(TraceError::Overflow);
        }
        proof {
            if self@.contains_key(addr) {
                lemma_count_le_sum(self@, addr);
            }
            lemma_count_sum_bump(self@, addr);
        }
        update_addrs_counter(&mut self.counts, addr);
        self.total = self.total + 1;
        Ok(())
    }

    /// Counts one access to the start of each of `ranges`, in order, and
    /// stops at the first that does not fit.
    pub fn observe_ranges(&mut self, ranges: &Vec<AddressRange>) -> (r: Result<(), TraceError>)
        requires
            old(self).wf(),
        ensures
            final(self).wf(),
            observed(*old(self), starts(ranges@), *final(self), r),
    {
        let ghost addrs = starts(ranges@);
        let mut i: usize = 0;
        while i < ranges.len()
            invariant
                i <= ranges.len(),
                self.wf(),
                addrs == starts(ranges@),
                counted(*old(self), addrs.take(i as int), *self),
            decreases ranges.len() - i,
        {
            match self.observe(ranges[i].start) {
                Ok(()) => {},
                Err(e) => {
                    return Err(e);
                },
            }
            proof {
                assert(addrs.take(i + 1).drop_last() == addrs.take(i as int));
            }
            i += 1;
        }
        proof {
            assert(addrs.take(i as int) == addrs);
        }
        Ok(())
    }

    /// Counts one access to the start of each range of each of `edges`,
    /// edge by edge, and stops at the first that does not fit.
    pub fn observe_edges(&mut self, edges: &Vec<Edge>) -> (r: Result<(), TraceError>)
        requires
            old(self).wf(),
        ensures
            final(self).wf(),
            observed(*old(self), edge_starts(edges@), *final(self), r),
    {
        let ghost before = *self;
        let mut i: usize = 0;
        while i < edges.len()
            invariant
                i <= edges.len(),
                self.wf(),
                before == *old(self),
                observed(before, edge_starts(edges@.take(i as int)), *self, Ok(())),
            decreases edges.len() - i,
        {
            let ghost seen = edge_starts(edges@.take(i as int));
            let ghost more = starts(edges[i as int].ranges@);
            proof {
                assert(edges@.take(i + 1).drop_last() == edges@.take(i as int));
                assert(edge_starts(edges@.take(i + 1)) == seen + more);
                lemma_edge_starts_prefix(edges@, i + 1);
                lemma_bump_all_concat(before@, seen, more);
            }
            match self.observe_ranges(&edges[i].ranges) {
                Ok(()) => {},
                Err(e) => {
                    return Err(e);
                },
            }
            i += 1;
        }
        proof {
            assert(edges@.take(i as int) == edges@);
        }
        Ok(())
    }

    /// The number of accesses counted.
    pub fn total_count(&self) -> (n: u64)
        ensures
            n == self.total(),
    {
        self.total
    }

    /// The number of distinct addresses touched.
    pub fn unique(&self) -> (n: usize)
        ensures
            n == self@.dom().len(),
    {
        self.counts.len()
    }

    /// The counts, address by address.
    pub fn counts(&self) -> (counts: &HashMap<u64, u64>)
        ensures
            counts@ == self@,
    {
        &self.counts
    }
}

/// Whether `addrs` more accesses keep the total of `table` within
/// `u64::MAX`.
pub open spec fn fits(table: FrequencyTable, addrs: Seq<u64>) -> bool {
    table.total() + addrs.len() <= u64::MAX
}

/// Whether `after` is `before` with one more access to each of `addrs`.
pub open spec fn counted(before: FrequencyTable, addrs: Seq<u64>, after: FrequencyTable) -> bool {
    &&& after@ == bump_all(before@, addrs)
    &&& after.total() == before.total() + addrs.len()
}

/// What it means to have counted one access to each of `addrs` on top of
/// `before`, with `after` and `r` as the outcome.
///
/// If the total stays within `u64::MAX`, every access is counted and the
/// outcome is `Ok`. If not, the outcome is `Overflow`, and `after` holds
/// the accesses that still fitted.
pub open spec fn observed(
    before: FrequencyTable,
    addrs: Seq<u64>,
    after: FrequencyTable,
    r: Result<(), TraceError>,
) -> bool {
    if fits(before, addrs) {
        r is Ok && counted(before, addrs, after)
    } else {
        &&& r == Err::<(), TraceError>(TraceError::Overflow)
        &&& after.total() == u64::MAX
    }
}

/// Whether an access reads or writes.
#[derive(Clone, Copy, Debug, PartialEq, Eq, Structural)]
pub enum AccessKind {
    Read,
    Write,
}

/// The two tables of a corpus: one for reads, one for writes.
pub struct Aggregator {
    pub reads: FrequencyTable,
    pub writes: FrequencyTable,
}

impl Aggregator {
    /// Both tables account for every access.
    pub open spec fn wf(&self) -> bool {
        self.reads.wf() && self.writes.wf()
    }

    /// The table that accesses of `kind` are counted in.
    pub open spec fn table(&self, kind: AccessKind) -> FrequencyTable {
        match kind {
            AccessKind::Read => self.reads,
            AccessKind::Write => self.writes,
        }
    }

    /// An aggregator that has seen nothing.
    pub fn new() -> (aggregator: Aggregator)
        ensures
            aggregator.wf(),
            aggregator.reads@ == Map::<u64, u64>::empty(),
            aggregator.writes@ == Map::<u64, u64>::empty(),
            aggregator.reads.total() == 0,
            aggregator.writes.total() == 0,
    {
        Aggregator { reads: FrequencyTable::new(), writes: FrequencyTable::new() }
    }

    /// Counts one access of `kind` to `addr` and leaves the other table as
    /// it is. Fails, and changes nothing, only where the table's total has
    /// reached `u64::MAX`.
    pub fn observe(&mut self, addr: u64, kind: AccessKind) -> (r: Result<(), TraceError>)
        requires
            old(self).wf(),
        ensures
            final(self).wf(),
            match r {
                Ok(()) => {
                    &&& old(self).table(kind).total() < u64::MAX
                    &&& final(self).table(kind)@ == bump(old(self).table(kind)@, addr)
                    &&& final(self).table(kind).total() == old(self).table(kind).total() + 1
                },
                Err(e) => {
                    &&& e == TraceError::Overflow
                    &&& old(self).table(kind).total() == u64::MAX
                    &&& final(self).table(kind)@ == old(self).table(kind)@
                    &&& final(self).table(kind).total() == old(self).table(kind).total()
                },
            },
            kind == AccessKind::Read ==> final(self).writes == old(self).writes,
            kind == AccessKind::Write ==> final(self).reads == old(self).reads,
    {
        match kind {
            AccessKind::Read => self.reads.observe(addr),
            AccessKind::Write => self.writes.observe(addr),
        }
    }

    /// Counts the accesses of one event: first what it writes, then what
    /// it reads.
    ///
    /// A computation is counted by its tag or by the lists its ranges are
    /// in; a communication always reads; synchronizations and markers count
    /// for nothing. Each range counts once, under its start address.
    pub fn observe_event(&mut self, event: &Event) -> (r: Result<(), TraceError>)
        requires
            old(self).wf(),
        ensures
            final(self).wf(),
            r is Ok <==> fits(old(self).writes, event.write_addrs()) && fits(
                old(self).reads,
                event.read_addrs(),
            ),
            r is Ok ==> counted(old(self).writes, event.write_addrs(), final(self).writes)
                && counted(old(self).reads, event.read_addrs(), final(self).reads),
            r is Err ==> r == Err::<(), TraceError>(TraceError::Overflow),
    {
        proof {
            assert(bump_all(self.reads@, Seq::<u64>::empty()) == self.reads@);
            assert(bump_all(self.writes@, Seq::<u64>::empty()) == self.writes@);
            lemma_bump_all_one(self.reads@, event.read_addrs());
            lemma_bump_all_one(self.writes@, event.write_addrs());
        }
        match event {
            Event::Computation(Computation::Single { mem, range, .. }) => match mem {
                MemType::Read => self.observe(range.start, AccessKind::Read),
                MemType::Write => self.observe(range.start, AccessKind::Write),
                MemType::NoAccess => Ok(()),
            },
            Event::Computation(Computation::Ranges { write_ranges, read_ranges, .. }) => {
                match self.writes.observe_ranges(write_ranges) {
                    Ok(()) => self.reads.observe_ranges(read_ranges),
                    Err(e) => Err(e),
                }
            },
            Event::Communication(Communication::Single { range, .. }) => self.observe(
                range.start,
                AccessKind::Read,
            ),
            Event::Communication(Communication::Edges { edges }) => self.reads.observe_edges(edges),
            Event::Synchronization(_) => Ok(()),
            Event::Marker(_) => Ok(()),
        }
    }
}

} // verus!
