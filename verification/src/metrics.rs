//! From a corpus of traces to its report: every trace is decoded and
//! counted, then each table is ranked and measured.

use crate::decoder::{first_len, Events, Next, Schema, StreamDecoder};
use crate::error::{DecodeError, TraceError};
use crate::event::Event;
use crate::frequency::{counted, fits, lemma_bump_all_concat, Aggregator, FrequencyTable};
use crate::input::{ends_in_gz, is_gz_name, messages_of, InputKind};
use crate::rank::{descending, entries_of, get_sorted_vec, lists};
use crate::stats::{
    coarsen, entry_sum, lemma_lists_sum, local_counts, ninety_count, ninety_perc,
};
use crate::wire::inflate;
use vstd::prelude::*;

verus! {

/// The addresses that `events` read, event by event.
pub open spec fn all_reads(events: Seq<Event>) -> Seq<u64>
    decreases events.len(),
{
    if events.len() == 0 {
        Seq::empty()
    } else {
        all_reads(events.drop_last()) + events.last().read_addrs()
    }
}

/// The addresses that `events` write, event by event.
pub open spec fn all_writes(events: Seq<Event>) -> Seq<u64>
    decreases events.len(),
{
    if events.len() == 0 {
        Seq::empty()
    } else {
        all_writes(events.drop_last()) + events.last().write_addrs()
    }
}

/// A prefix of the events touches no more addresses than all of them.
pub proof fn lemma_all_prefix(events: Seq<Event>, n: int)
    requires
        0 <= n <= events.len(),
    ensures
        all_reads(events.take(n)).len() <= all_reads(events).len(),
        all_writes(events.take(n)).len() <= all_writes(events).len(),
    decreases events.len() - n,
{
    if n < events.len() {
        lemma_all_prefix(events, n + 1);
        assert(events.take(n + 1).drop_last() == events.take(n));
    } else {
        assert(events.take(n) == events);
    }
}

/// What is reported of one table. The two entropies are computed from
/// `ranked` and `regions`, each with `total`.
#[derive(Clone, Debug, PartialEq, Eq)]
pub struct TableReport {
    /// The number of accesses.
    pub total: u64,
    /// The number of distinct addresses.
    pub unique: usize,
    /// The number of most frequent addresses that stay within nine tenths
    /// of the accesses.
    pub ninety: u64,
    /// Every address with its count, most frequent first.
    pub ranked: Vec<(u64, u64)>,
    /// Every 1024-byte region that was touched, with its count.
    pub regions: Vec<(u64, u64)>,
}

impl TableReport {
    /// Whether this is the report of `table`.
    pub open spec fn describes(&self, table: FrequencyTable) -> bool {
        &&& self.total == table.total()
        &&& self.unique == table@.dom().len()
        &&& lists(self.ranked@, table@)
        &&& descending(self.ranked@)
        &&& entry_sum(self.ranked@) == self.total
        &&& self.ninety == ninety_count(self.ranked@, self.total)
        &&& lists(self.regions@, coarsen(self.ranked@))
        &&& entry_sum(self.regions@) == self.total
        &&& self.regions.len() <= self.unique
    }
}

/// What is reported of a corpus: one report for reads, one for writes.
/// Nothing relates the two.
#[derive(Clone, Debug, PartialEq, Eq)]
pub struct Report {
    pub reads: TableReport,
    pub writes: TableReport,
}

impl FrequencyTable {
    /// Ranks and measures the table.
    pub fn report(&self) -> (report: TableReport)
        requires
            self.wf(),
        ensures
            report.describes(*self),
    {
        let ranked = get_sorted_vec(self.counts());
        proof {
            lemma_lists_sum(ranked@, self@);
        }
        let total = self.total_count();
        let ninety = ninety_perc(&ranked, total);
        let local = local_counts(&ranked);
        let regions = entries_of(&local);
        proof {
            lemma_lists_sum(regions@, local@);
        }
        TableReport { total, unique: self.unique(), ninety, ranked, regions }
    }
}

impl Aggregator {
    /// Counts the accesses of `events`, event by event, and stops at the
    /// first event whose accesses do not fit.
    pub fn add_events(&mut self, events: &Vec<Event>) -> (r: Result<(), TraceError>)
        requires
            old(self).wf(),
        ensures
            final(self).wf(),
            r is Ok <==> fits(old(self).writes, all_writes(events@)) && fits(
                old(self).reads,
                all_reads(events@),
            ),
            r is Ok ==> counted(old(self).writes, all_writes(events@), final(self).writes)
                && counted(old(self).reads, all_reads(events@), final(self).reads),
            r is Err ==> r == Err::<(), TraceError>(TraceError::Overflow),
    {
        let mut i: usize = 0;
        while i < events.len()
            invariant
                i <= events.len(),
                self.wf(),
                counted(old(self).writes, all_writes(events@.take(i as int)), self.writes),
                counted(old(self).reads, all_reads(events@.take(i as int)), self.reads),
            decreases events.len() - i,
        {
            proof {
                let seen = events@.take(i as int);
                assert(events@.take(i + 1).drop_last() == seen);
                lemma_all_prefix(events@, i + 1);
                lemma_bump_all_concat(
                    old(self).writes@,
                    all_writes(seen),
                    events[i as int].write_addrs(),
                );
                lemma_bump_all_concat(
                    old(self).reads@,
                    all_reads(seen),
                    events[i as int].read_addrs(),
                );
            }
            match self.observe_event(&events[i]) {
                Ok(()) => {},
                Err(e) => {
                    return Err(e);
                },
            }
            i += 1;
        }
        proof {
            assert(events@.take(i as int) == events@);
        }
        Ok(())
    }

    /// Takes the events that are left in a message, one at a time, and
    /// counts the accesses of each before the next is read. Stops at the
    /// first event that cannot be read, and at the first whose accesses do
    /// not fit.
    pub fn add_message(&mut self, events: &mut Events<'_>) -> (r: Result<(), TraceError>)
        requires
            old(self).wf(),
            old(events).wf(),
        ensures
            final(self).wf(),
            final(events).wf(),
            final(events).items() == old(events).items(),
            final(events).schema() == old(events).schema(),
            match r {
                Ok(()) => exists|seen: Seq<Event>|
                    {
                        &&& seen.len() == old(events).left().len()
                        &&& #[trigger] old(events).yields(seen)
                        &&& counted(old(self).writes, all_writes(seen), final(self).writes)
                        &&& counted(old(self).reads, all_reads(seen), final(self).reads)
                    },
                Err(TraceError::Decode(e)) => exists|i: int|
                    0 <= i < old(events).left().len() && old(events).schema().decodes(
                        #[trigger] old(events).left()[i],
                        Err(e),
                    ),
                Err(e) => e == TraceError::Overflow,
            },
    {
        let ghost mut seen: Seq<Event> = Seq::empty();
        loop
            invariant
                self.wf(),
                events.wf(),
                events.items() == old(events).items(),
                events.schema() == old(events).schema(),
                events.taken() == old(events).taken() + seen.len(),
                old(events).yields(seen),
                counted(old(self).writes, all_writes(seen), self.writes),
                counted(old(self).reads, all_reads(seen), self.reads),
            decreases events.left().len(),
        {
            let ghost index = seen.len() as int;
            let event = match events.next_event() {
                None => {
                    return Ok(());
                },
                Some(Ok(event)) => event,
                Some(Err(e)) => {
                    assert(old(events).schema().decodes(old(events).left()[index], Err(e)));
                    return Err(TraceError::Decode(e));
                },
            };
            proof {
                assert(seen.push(event).drop_last() == seen);
                lemma_bump_all_concat(old(self).writes@, all_writes(seen), event.write_addrs());
                lemma_bump_all_concat(old(self).reads@, all_reads(seen), event.read_addrs());
            }
            match self.observe_event(&event) {
                Ok(()) => {},
                Err(e) => {
                    return Err(e);
                },
            }
            proof {
                seen = seen.push(event);
            }
        }
    }

    /// Decodes a stream of messages and counts the accesses of its events,
    /// message by message and event by event. Stops at the first message
    /// that does not decode, and at the first event whose accesses do not
    /// fit. An empty stream changes nothing, and neither does one that
    /// does not start with a message.
    pub fn add_stream(&mut self, bytes: &[u8], schema: Schema) -> (r: Result<(), TraceError>)
        requires
            old(self).wf(),
        ensures
            final(self).wf(),
            bytes.len() == 0 ==> r is Ok && *final(self) == *old(self),
            bytes.len() > 0 && first_len(bytes@) is None ==> r == Err::<(), TraceError>(
                TraceError::Decode(DecodeError::Malformed),
            ) && *final(self) == *old(self),
            r matches Err(e) ==> e is Decode || e is Overflow,
    {
        let mut decoder = StreamDecoder::open(bytes, schema);
        assert(bytes@.skip(0) == bytes@);
        loop
            invariant
                self.wf(),
                decoder.wf(),
                decoder.bytes() == bytes@,
                bytes@.skip(0) == bytes@,
                decoder.position() == 0 ==> *self == *old(self),
                decoder.position() > 0 ==> first_len(bytes@) is Some,
            decreases decoder.bytes().len() - decoder.position(),
        {
            let message = match decoder.next_message() {
                Err(e) => {
                    return Err(TraceError::Decode(e));
                },
                Ok(Next::EndOfStream) => {
                    return Ok(());
                },
                Ok(Next::Message(message)) => message,
            };
            let mut events = match message.events() {
                Ok(events) => events,
                Err(e) => {
                    return Err(TraceError::Decode(e));
                },
            };
            match self.add_message(&mut events) {
                Ok(()) => {},
                Err(e) => {
                    return Err(e);
                },
            }
        }
    }

    /// Counts the accesses of one input: its contents are read as `kind`
    /// says and decoded under `schema`. Contents that cannot be read change
    /// nothing, and neither do contents that hold no message.
    pub fn add_trace(&mut self, kind: InputKind, contents: &[u8], schema: Schema) -> (r: Result<
        (),
        TraceError,
    >)
        requires
            old(self).wf(),
        ensures
            final(self).wf(),
            match messages_of(kind, contents@) {
                None => r == Err::<(), TraceError>(TraceError::Io) && *final(self) == *old(self),
                Some(bytes) => {
                    &&& bytes.len() == 0 ==> r is Ok && *final(self) == *old(self)
                    &&& r matches Err(e) ==> e is Decode || e is Overflow
                },
            },
    {
        match kind {
            InputKind::Raw => self.add_stream(contents, schema),
            InputKind::Gzip => match inflate(contents) {
                Ok(bytes) => self.add_stream(bytes.as_slice(), schema),
                Err(_) => Err(TraceError::Io),
            },
        }
    }

    /// Ranks and measures both tables.
    pub fn report(&self) -> (report: Report)
        requires
            self.wf(),
        ensures
            report.reads.describes(self.reads),
            report.writes.describes(self.writes),
    {
        Report { reads: self.reads.report(), writes: self.writes.report() }
    }
}

/// One entry of a directory of traces: its name and what it holds.
#[derive(Clone, Debug, PartialEq, Eq)]
pub struct TraceFile {
    pub name: String,
    pub contents: Vec<u8>,
}

/// Whether none of `files` has a name with the extension `gz`.
pub open spec fn no_gz(files: Seq<TraceFile>) -> bool {
    forall|i: int| 0 <= i < files.len() ==> !ends_in_gz(
        vstd::utf8::encode_utf8(#[trigger] files[i].name@),
    )
}

/// The memory metrics of a directory of gzipped traces in the uncompressed
/// schema.
///
/// The entries are taken in order. Only those whose name has the extension
/// `gz` are read; the others are passed over. The first entry that does not
/// inflate or decode ends the run: there is no report of a part of the
/// corpus. A directory without traces has a report of nothing.
pub fn parse_capnp(files: &Vec<TraceFile>) -> (r: Result<Report, TraceError>)
    ensures
        match r {
            Ok(report) => exists|aggregator: Aggregator|
                {
                    &&& aggregator.wf()
                    &&& report.reads.describes(aggregator.reads)
                    &&& report.writes.describes(aggregator.writes)
                    &&& no_gz(files@) ==> aggregator.reads.total() == 0
                        && aggregator.writes.total() == 0
                },
            Err(e) => !no_gz(files@) && (e is Io || e is Decode || e is Overflow),
        },
{
    let mut aggregator = Aggregator::new();
    let mut i: usize = 0;
    while i < files.len()
        invariant
            i <= files.len(),
            aggregator.wf(),
            no_gz(files@) ==> aggregator.reads.total() == 0 && aggregator.writes.total() == 0,
        decreases files.len() - i,
    {
        let file = &files[i];
        if is_gz_name(file.name.as_str()) {
            match aggregator.add_trace(
                InputKind::Gzip,
                file.contents.as_slice(),
                Schema::Uncompressed,
            ) {
                Ok(()) => {},
                Err(e) => {
                    return Err(e);
                },
            }
        }
        i += 1;
    }
    Ok(aggregator.report())
}

} // verus!
