//! Where the two schemas keep their fields, and what the numbers on the wire
//! mean.
//!
//! A slot is counted in units of the field's own width from the start of a
//! struct's data section: 16-bit slot 3 is bytes 6 and 7. The members of a
//! union share their storage, so the same slot serves several fields.
//!
//! The slots are those that the Cap'n Proto compiler gives these schemas.
//! Uncompressed:
//!
//! ```text
//! struct EventStreamUncompressed {
//!   struct Event {
//!     union {
//!       comp :group {
//!         iops @0 :UInt16;
//!         flops @1 :UInt16;
//!         mem @2 :MemType;
//!         startAddr @3 :UInt64;
//!         endAddr @4 :UInt64;
//!       }
//!       comm :group {
//!         producerEvent @5 :UInt32;
//!         producerThread @6 :UInt16;
//!         startAddr @7 :UInt64;
//!         endAddr @8 :UInt64;
//!       }
//!       sync :group {
//!         type @9 :SyncType;
//!         args @10 :List(UInt64);
//!       }
//!       marker :group {
//!         count @11 :UInt16;
//!       }
//!     }
//!     enum MemType { none @0; read @1; write @2; }
//!     enum SyncType { spawn @0; join @1; barrier @2; lock @3; unlock @4; }
//!   }
//!   events @0 :List(Event);
//! }
//! ```
//!
//! Compressed, with the same `SyncType`:
//!
//! ```text
//! struct EventStreamCompressed {
//!   struct AddrRange {
//!     start @0 :UInt64;
//!     end @1 :UInt64;
//!   }
//!   struct Event {
//!     struct Edge {
//!       producerEvent @0 :UInt32;
//!       producerThread @1 :UInt16;
//!       addrs @2 :List(AddrRange);
//!     }
//!     union {
//!       comp :group {
//!         iops @0 :UInt32;
//!         flops @1 :UInt32;
//!         writes @2 :UInt32;
//!         reads @3 :UInt32;
//!         writeAddrs @4 :List(AddrRange);
//!         readAddrs @5 :List(AddrRange);
//!       }
//!       comm :group {
//!         edges @6 :List(Edge);
//!       }
//!       sync :group {
//!         type @7 :SyncType;
//!         args @8 :List(UInt64);
//!       }
//!       marker :group {
//!         count @9 :UInt16;
//!       }
//!     }
//!   }
//!   events @0 :List(Event);
//! }
//! ```
//!
//! In both, the first member of the union fills whole words before the
//! second member brings the discriminant in, so the discriminant lies in
//! the word after them: word 3 of an uncompressed event, word 2 of a
//! compressed one.

use crate::error::DecodeError;
use crate::event::{MemType, SyncType};
use vstd::prelude::*;

verus! {

/// The pointer slot of a stream's list of events.
pub const STREAM_EVENTS: usize = 0;

/// Uncompressed event: the 16-bit slot of the union discriminant.
pub const U_WHICH: usize = 12;

/// Uncompressed computation: 16-bit slots of the operation counts and of
/// the memory tag, 64-bit slots of the range.
pub const U_COMP_IOPS: usize = 0;

pub const U_COMP_FLOPS: usize = 1;

pub const U_COMP_MEM: usize = 2;

pub const U_COMP_START: usize = 1;

pub const U_COMP_END: usize = 2;

/// Uncompressed communication: 32-bit slot of the producer's event, 16-bit
/// slot of its thread, 64-bit slots of the range.
pub const U_COMM_EVENT: usize = 0;

pub const U_COMM_THREAD: usize = 2;

pub const U_COMM_START: usize = 1;

pub const U_COMM_END: usize = 2;

/// Compressed event: the 16-bit slot of the union discriminant.
pub const C_WHICH: usize = 8;

/// Compressed computation: 32-bit slots of the four counts, pointer slots
/// of the two lists of ranges.
pub const C_COMP_IOPS: usize = 0;

pub const C_COMP_FLOPS: usize = 1;

pub const C_COMP_WRITES: usize = 2;

pub const C_COMP_READS: usize = 3;

pub const C_COMP_WRITE_ADDRS: usize = 0;

pub const C_COMP_READ_ADDRS: usize = 1;

/// Compressed communication: pointer slot of the list of edges.
pub const C_COMM_EDGES: usize = 0;

/// Edge: 32-bit slot of the producer's event, 16-bit slot of its thread,
/// pointer slot of the list of ranges.
pub const EDGE_EVENT: usize = 0;

pub const EDGE_THREAD: usize = 2;

pub const EDGE_ADDRS: usize = 0;

/// Range: 64-bit slots of its two ends.
pub const RANGE_START: usize = 0;

pub const RANGE_END: usize = 1;

/// Synchronization, in both schemas: 16-bit slot of the primitive, pointer
/// slot of the arguments.
pub const SYNC_TYPE: usize = 0;

pub const SYNC_ARGS: usize = 0;

/// Marker, in both schemas: 16-bit slot of the count.
pub const MARKER_COUNT: usize = 0;

/// Which of the four payloads an event carries.
#[derive(Clone, Copy, Debug, PartialEq, Eq, Structural)]
pub enum EventKind {
    Computation,
    Communication,
    Synchronization,
    Marker,
}

impl EventKind {
    /// The kind that the union discriminant `which` names. Only 0 to 3 name
    /// one.
    pub open spec fn of(which: u16) -> Result<EventKind, DecodeError> {
        if which == 0 {
            Ok(EventKind::Computation)
        } else if which == 1 {
            Ok(EventKind::Communication)
        } else if which == 2 {
            Ok(EventKind::Synchronization)
        } else if which == 3 {
            Ok(EventKind::Marker)
        } else {
            Err(DecodeError::UnknownEvent(which))
        }
    }

    /// Reads a union discriminant. A number that names no kind is an error,
    /// never an event to skip.
    pub fn from_wire(which: u16) -> (r: Result<EventKind, DecodeError>)
        ensures
            r == EventKind::of(which),
    {
        match which {
            0 => Ok(EventKind::Computation),
            1 => Ok(EventKind::Communication),
            2 => Ok(EventKind::Synchronization),
            3 => Ok(EventKind::Marker),
            _ => Err(DecodeError::UnknownEvent(which)),
        }
    }
}

impl MemType {
    /// The memory tag that `tag` names. Only 0 to 2 name one.
    pub open spec fn of(tag: u16) -> Result<MemType, DecodeError> {
        if tag == 0 {
            Ok(MemType::NoAccess)
        } else if tag == 1 {
            Ok(MemType::Read)
        } else if tag == 2 {
            Ok(MemType::Write)
        } else {
            Err(DecodeError::UnknownMemType(tag))
        }
    }

    /// Reads a memory tag. A number that names none is an error.
    pub fn from_wire(tag: u16) -> (r: Result<MemType, DecodeError>)
        ensures
            r == MemType::of(tag),
    {
        match tag {
            0 => Ok(MemType::NoAccess),
            1 => Ok(MemType::Read),
            2 => Ok(MemType::Write),
            _ => Err(DecodeError::UnknownMemType(tag)),
        }
    }
}

impl SyncType {
    /// The primitive that `tag` names. Every number names one: those from 5
    /// on name `Other`.
    pub open spec fn of(tag: u16) -> SyncType {
        if tag == 0 {
            SyncType::Spawn
        } else if tag == 1 {
            SyncType::Join
        } else if tag == 2 {
            SyncType::Barrier
        } else if tag == 3 {
            SyncType::Lock
        } else if tag == 4 {
            SyncType::Unlock
        } else {
            SyncType::Other(tag)
        }
    }

    /// Reads a synchronization primitive. An unknown one is kept, not
    /// refused.
    pub fn from_wire(tag: u16) -> (r: SyncType)
        ensures
            r == SyncType::of(tag),
    {
        match tag {
            0 => SyncType::Spawn,
            1 => SyncType::Join,
            2 => SyncType::Barrier,
            3 => SyncType::Lock,
            4 => SyncType::Unlock,
            _ => SyncType::Other(tag),
        }
    }
}

} // verus!
