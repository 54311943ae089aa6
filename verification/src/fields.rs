//! Reading the payloads that the two schemas share: scalar fields, lists of
//! ranges, synchronizations and markers.

use crate::error::DecodeError;
use crate::event::{AddressRange, Marker, SyncType, Synchronization};
use crate::layout::{MARKER_COUNT, RANGE_END, RANGE_START, SYNC_ARGS, SYNC_TYPE};
use crate::wire::{
    field, list_items, list_len, list_struct, pointer_u64_list, struct_data, struct_pointer,
    struct_u16, struct_u64,
};
use capnp::private::layout::{ListReader, StructReader};
use vstd::prelude::*;

verus! {

/// The 16-bit field in slot `slot` of a data section.
pub open spec fn u16_at(data: Seq<u8>, slot: usize) -> u16 {
    field(data, slot as int, 2) as u16
}

/// The 32-bit field in slot `slot` of a data section.
pub open spec fn u32_at(data: Seq<u8>, slot: usize) -> u32 {
    field(data, slot as int, 4) as u32
}

/// The 64-bit field in slot `slot` of a data section.
pub open spec fn u64_at(data: Seq<u8>, slot: usize) -> u64 {
    field(data, slot as int, 8) as u64
}

/// The range that a data section holds.
pub open spec fn range_of(data: Seq<u8>) -> AddressRange {
    AddressRange { start: u64_at(data, RANGE_START), end: u64_at(data, RANGE_END) }
}

/// The ranges that the elements of a list hold, in order.
pub open spec fn ranges_of(items: Seq<Seq<u8>>) -> Seq<AddressRange> {
    items.map_values(|data: Seq<u8>| range_of(data))
}

/// The marker that a data section holds.
pub open spec fn marker_of(data: Seq<u8>) -> Marker {
    Marker { count: u16_at(data, MARKER_COUNT) }
}

/// Reads every range of a list. Ranges are taken as they come: none is
/// merged with another or checked against it.
pub fn decode_ranges(list: &ListReader<'_>) -> (ranges: Vec<AddressRange>)
    ensures
        ranges@ == ranges_of(list_items(*list)),
{
    let n = list_len(list);
    let mut ranges: Vec<AddressRange> = Vec::new();
    let mut i: u32 = 0;
    while i < n
        invariant
            n == list_items(*list).len(),
            i <= n,
            ranges@ == ranges_of(list_items(*list).take(i as int)),
        decreases n - i,
    {
        let element = list_struct(list, i);
        let start = struct_u64(&element, RANGE_START);
        let end = struct_u64(&element, RANGE_END);
        ranges.push(AddressRange { start, end });
        proof {
            let items = list_items(*list);
            assert(items.take(i + 1) == items.take(i as int).push(items[i as int]));
        }
        i += 1;
    }
    proof {
        let items = list_items(*list);
        assert(items.take(n as int) == items);
    }
    ranges
}

/// Reads a synchronization. The primitive is never refused; the argument
/// list is, where its pointer does not lead to a list of words.
pub fn decode_sync(event: &StructReader<'_>) -> (r: Result<Synchronization, DecodeError>)
    ensures
        match r {
            Ok(sync) => sync.kind == SyncType::of(u16_at(struct_data(*event), SYNC_TYPE)),
            Err(e) => e == DecodeError::Malformed,
        },
{
    let kind = SyncType::from_wire(struct_u16(event, SYNC_TYPE));
    match pointer_u64_list(struct_pointer(event, SYNC_ARGS)) {
        Ok(args) => Ok(Synchronization { kind, args }),
        Err(_) => Err(DecodeError::Malformed),
    }
}

/// Reads a marker.
pub fn decode_marker(event: &StructReader<'_>) -> (marker: Marker)
    ensures
        marker == marker_of(struct_data(*event)),
{
    Marker { count: struct_u16(event, MARKER_COUNT) }
}

} // verus!
