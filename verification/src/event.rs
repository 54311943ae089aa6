use vstd::prelude::*;

verus! {

/// A contiguous span of addresses touched by one access.
///
/// Both ends are kept as decoded. No order between them is enforced, and
/// only `start` takes part in the statistics.
#[derive(Clone, Copy, Debug, PartialEq, Eq, Structural)]
pub struct AddressRange {
    pub start: u64,
    pub end: u64,
}

/// How the single range of an uncompressed computation event was accessed.
#[derive(Clone, Copy, Debug, PartialEq, Eq, Structural)]
pub enum MemType {
    /// The event touched no memory.
    NoAccess,
    Read,
    Write,
}

/// The primitive behind a synchronization event.
#[derive(Clone, Copy, Debug, PartialEq, Eq, Structural)]
pub enum SyncType {
    Spawn,
    Join,
    Barrier,
    Lock,
    Unlock,
    /// A wire number without a name here. Such events are kept and count
    /// for nothing.
    Other(u16),
}

/// One producer that a compressed communication event consumes from, with
/// the ranges it produced.
#[derive(Clone, Debug, PartialEq, Eq)]
pub struct Edge {
    pub producer_event: u32,
    pub producer_thread: u16,
    pub ranges: Vec<AddressRange>,
}

/// Work done by a thread between two points of interest.
#[derive(Clone, Debug, PartialEq, Eq)]
#[allow(inconsistent_fields)]
pub enum Computation {
    /// Uncompressed schema: at most one range, tagged by how it was accessed.
    Single { iops: u16, flops: u16, mem: MemType, range: AddressRange },
    /// Compressed schema: the written ranges and the read ranges, with the
    /// raw operation counts.
    Ranges {
        iops: u32,
        flops: u32,
        writes: u32,
        reads: u32,
        write_ranges: Vec<AddressRange>,
        read_ranges: Vec<AddressRange>,
    },
}

/// A thread consuming what another thread produced.
#[derive(Clone, Debug, PartialEq, Eq)]
pub enum Communication {
    /// Uncompressed schema: one producer and one range.
    Single { producer_event: u32, producer_thread: u16, range: AddressRange },
    /// Compressed schema: a list of producers, each with its ranges.
    Edges { edges: Vec<Edge> },
}

/// A synchronization primitive with its uninterpreted arguments.
#[derive(Clone, Debug, PartialEq, Eq)]
pub struct Synchronization {
    pub kind: SyncType,
    pub args: Vec<u64>,
}

/// An epoch marker.
#[derive(Clone, Copy, Debug, PartialEq, Eq, Structural)]
pub struct Marker {
    pub count: u16,
}

/// A decoded trace event: exactly one of four kinds.
#[derive(Clone, Debug, PartialEq, Eq)]
pub enum Event {
    Computation(Computation),
    Communication(Communication),
    Synchronization(Synchronization),
    Marker(Marker),
}

/// The start addresses of `ranges`, in order.
pub open spec fn starts(ranges: Seq<AddressRange>) -> Seq<u64> {
    ranges.map_values(|r: AddressRange| r.start)
}

/// The start addresses of all ranges of `edges`, edge by edge.
pub open spec fn edge_starts(edges: Seq<Edge>) -> Seq<u64>
    decreases edges.len(),
{
    if edges.len() == 0 {
        Seq::empty()
    } else {
        edge_starts(edges.drop_last()) + starts(edges.last().ranges@)
    }
}

impl Event {
    /// The addresses that this event reads, one for each range, in the
    /// order in which they are counted.
    ///
    /// A computation reads what its tag or its read list says. A
    /// communication always reads. Synchronizations and markers touch
    /// nothing.
    pub open spec fn read_addrs(self) -> Seq<u64> {
        match self {
            Event::Computation(Computation::Single { mem, range, .. }) => if mem == MemType::Read {
                seq![range.start]
            } else {
                Seq::empty()
            },
            Event::Computation(Computation::Ranges { read_ranges, .. }) => starts(read_ranges@),
            Event::Communication(Communication::Single { range, .. }) => seq![range.start],
            Event::Communication(Communication::Edges { edges }) => edge_starts(edges@),
            Event::Synchronization(_) => Seq::empty(),
            Event::Marker(_) => Seq::empty(),
        }
    }

    /// The addresses that this event writes, one for each range.
    ///
    /// Only a computation writes: what its tag or its write list says.
    pub open spec fn write_addrs(self) -> Seq<u64> {
        match self {
            Event::Computation(Computation::Single { mem, range, .. }) => if mem == MemType::Write {
                seq![range.start]
            } else {
                Seq::empty()
            },
            Event::Computation(Computation::Ranges { write_ranges, .. }) => starts(write_ranges@),
            _ => Seq::empty(),
        }
    }
}

} // verus!
