//! The adapter for the uncompressed schema: every memory event carries one
//! range, and a computation says by a tag how it touched it.

use crate::error::DecodeError;
use crate::event::{AddressRange, Communication, Computation, Event, MemType, SyncType};
use crate::fields::{decode_marker, decode_sync, marker_of, u16_at, u32_at, u64_at};
use crate::layout::{
    EventKind, SYNC_TYPE, U_COMM_END, U_COMM_EVENT, U_COMM_START, U_COMM_THREAD, U_COMP_END,
    U_COMP_FLOPS, U_COMP_IOPS, U_COMP_MEM, U_COMP_START, U_WHICH,
};
use crate::wire::{struct_data, struct_u16, struct_u32, struct_u64};
use capnp::private::layout::StructReader;
use vstd::prelude::*;

verus! {

/// The computation that a data section holds, if its memory tag is known.
pub open spec fn computation_of(data: Seq<u8>) -> Result<Event, DecodeError> {
    match MemType::of(u16_at(data, U_COMP_MEM)) {
        Err(e) => Err(e),
        Ok(mem) => Ok(
            Event::Computation(
                Computation::Single {
                    iops: u16_at(data, U_COMP_IOPS),
                    flops: u16_at(data, U_COMP_FLOPS),
                    mem,
                    range: AddressRange {
                        start: u64_at(data, U_COMP_START),
                        end: u64_at(data, U_COMP_END),
                    },
                },
            ),
        ),
    }
}

/// The communication that a data section holds.
pub open spec fn communication_of(data: Seq<u8>) -> Event {
    Event::Communication(
        Communication::Single {
            producer_event: u32_at(data, U_COMM_EVENT),
            producer_thread: u16_at(data, U_COMM_THREAD),
            range: AddressRange {
                start: u64_at(data, U_COMM_START),
                end: u64_at(data, U_COMM_END),
            },
        },
    )
}

/// Whether `r` is a reading of the event whose data section is `data`.
///
/// The discriminant decides the kind, and an unknown one is an error. A
/// computation, a communication and a marker are fixed by the data section
/// alone. A synchronization has its primitive from the data section and
/// its arguments from behind a pointer, which may fail to lead to them.
pub open spec fn decodes(data: Seq<u8>, r: Result<Event, DecodeError>) -> bool {
    match EventKind::of(u16_at(data, U_WHICH)) {
        Err(e) => r == Err::<Event, DecodeError>(e),
        Ok(EventKind::Computation) => r == computation_of(data),
        Ok(EventKind::Communication) => r == Ok::<Event, DecodeError>(communication_of(data)),
        Ok(EventKind::Synchronization) => match r {
            Ok(Event::Synchronization(sync)) => sync.kind == SyncType::of(u16_at(data, SYNC_TYPE)),
            Ok(_) => false,
            Err(e) => e == DecodeError::Malformed,
        },
        Ok(EventKind::Marker) => r == Ok::<Event, DecodeError>(Event::Marker(marker_of(data))),
    }
}

/// Reads one event of an uncompressed stream.
pub fn decode_event(event: &StructReader<'_>) -> (r: Result<Event, DecodeError>)
    ensures
        decodes(struct_data(*event), r),
{
    match EventKind::from_wire(struct_u16(event, U_WHICH)) {
        Err(e) => Err(e),
        Ok(EventKind::Computation) => {
            let iops = struct_u16(event, U_COMP_IOPS);
            let flops = struct_u16(event, U_COMP_FLOPS);
            let start = struct_u64(event, U_COMP_START);
            let end = struct_u64(event, U_COMP_END);
            match MemType::from_wire(struct_u16(event, U_COMP_MEM)) {
                Err(e) => Err(e),
                Ok(mem) => Ok(
                    Event::Computation(
                        Computation::Single { iops, flops, mem, range: AddressRange { start, end } },
                    ),
                ),
            }
        },
        Ok(EventKind::Communication) => {
            let producer_event = struct_u32(event, U_COMM_EVENT);
            let producer_thread = struct_u16(event, U_COMM_THREAD);
            let start = struct_u64(event, U_COMM_START);
            let end = struct_u64(event, U_COMM_END);
            Ok(
                Event::Communication(
                    Communication::Single {
                        producer_event,
                        producer_thread,
                        range: AddressRange { start, end },
                    },
                ),
            )
        },
        Ok(EventKind::Synchronization) => match decode_sync(event) {
            Ok(sync) => Ok(Event::Synchronization(sync)),
            Err(e) => Err(e),
        },
        Ok(EventKind::Marker) => Ok(Event::Marker(decode_marker(event))),
    }
}

} // verus!
