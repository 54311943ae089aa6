//! The adapter for the compressed schema: a computation carries a list of
//! written ranges and a list of read ranges, a communication a list of
//! edges. Nothing tags a range as read or written but the list it is in.

use crate::error::DecodeError;
use crate::event::{Communication, Computation, Edge, Event, SyncType};
use crate::fields::{decode_marker, decode_ranges, decode_sync, marker_of, u16_at, u32_at};
use crate::layout::{
    EventKind, C_COMM_EDGES, C_COMP_FLOPS, C_COMP_IOPS, C_COMP_READS, C_COMP_READ_ADDRS,
    C_COMP_WRITES, C_COMP_WRITE_ADDRS, C_WHICH, EDGE_ADDRS, EDGE_EVENT, EDGE_THREAD, SYNC_TYPE,
};
use crate::wire::{
    list_items, list_len, list_struct, pointer_struct_list, struct_data, struct_pointer,
    struct_u16, struct_u32,
};
use capnp::private::layout::{ListReader, StructReader};
use vstd::prelude::*;

verus! {

/// Whether `r` is a reading of the edge whose data section is `data`: the
/// producer comes from the data section, the ranges from behind a pointer.
pub open spec fn decodes_edge(data: Seq<u8>, r: Result<Edge, DecodeError>) -> bool {
    match r {
        Ok(edge) => {
            &&& edge.producer_event == u32_at(data, EDGE_EVENT)
            &&& edge.producer_thread == u16_at(data, EDGE_THREAD)
        },
        Err(e) => e == DecodeError::Malformed,
    }
}

/// Whether `r` is a reading of the event whose data section is `data`.
///
/// The discriminant decides the kind, and an unknown one is an error. A
/// marker is fixed by the data section alone. The other kinds have their
/// scalars from the data section and their lists from behind pointers,
/// which may fail to lead to them.
pub open spec fn decodes(data: Seq<u8>, r: Result<Event, DecodeError>) -> bool {
    match EventKind::of(u16_at(data, C_WHICH)) {
        Err(e) => r == Err::<Event, DecodeError>(e),
        Ok(EventKind::Computation) => match r {
            Ok(Event::Computation(Computation::Ranges { iops, flops, writes, reads, .. })) => {
                &&& iops == u32_at(data, C_COMP_IOPS)
                &&& flops == u32_at(data, C_COMP_FLOPS)
                &&& writes == u32_at(data, C_COMP_WRITES)
                &&& reads == u32_at(data, C_COMP_READS)
            },
            Ok(_) => false,
            Err(e) => e == DecodeError::Malformed,
        },
        Ok(EventKind::Communication) => match r {
            Ok(Event::Communication(Communication::Edges { .. })) => true,
            Ok(_) => false,
            Err(e) => e == DecodeError::Malformed,
        },
        Ok(EventKind::Synchronization) => match r {
            Ok(Event::Synchronization(sync)) => sync.kind == SyncType::of(u16_at(data, SYNC_TYPE)),
            Ok(_) => false,
            Err(e) => e == DecodeError::Malformed,
        },
        Ok(EventKind::Marker) => r == Ok::<Event, DecodeError>(Event::Marker(marker_of(data))),
    }
}

/// Reads one edge of a communication.
pub fn decode_edge(edge: &StructReader<'_>) -> (r: Result<Edge, DecodeError>)
    ensures
        decodes_edge(struct_data(*edge), r),
{
    let producer_event = struct_u32(edge, EDGE_EVENT);
    let producer_thread = struct_u16(edge, EDGE_THREAD);
    match pointer_struct_list(struct_pointer(edge, EDGE_ADDRS)) {
        Ok(list) => Ok(Edge { producer_event, producer_thread, ranges: decode_ranges(&list) }),
        Err(_) => Err(DecodeError::Malformed),
    }
}

/// Reads every edge of a list, stopping at the first that cannot be read.
pub fn decode_edges(list: &ListReader<'_>) -> (r: Result<Vec<Edge>, DecodeError>)
    ensures
        match r {
            Ok(edges) => {
                &&& edges.len() == list_items(*list).len()
                &&& forall|i: int|
                    0 <= i < edges.len() ==> decodes_edge(
                        #[trigger] list_items(*list)[i],
                        Ok(edges[i]),
                    )
            },
            Err(e) => e == DecodeError::Malformed,
        },
{
    let n = list_len(list);
    let mut edges: Vec<Edge> = Vec::new();
    let mut i: u32 = 0;
    while i < n
        invariant
            n == list_items(*list).len(),
            i <= n,
            edges.len() == i,
            forall|j: int|
                0 <= j < i ==> decodes_edge(#[trigger] list_items(*list)[j], Ok(edges[j])),
        decreases n - i,
    {
        let element = list_struct(list, i);
        match decode_edge(&element) {
            Ok(edge) => edges.push(edge),
            Err(e) => {
                return Err(e);
            },
        }
        i += 1;
    }
    Ok(edges)
}

/// Reads one event of a compressed stream.
pub fn decode_event(event: &StructReader<'_>) -> (r: Result<Event, DecodeError>)
    ensures
        decodes(struct_data(*event), r),
{
    match EventKind::from_wire(struct_u16(event, C_WHICH)) {
        Err(e) => Err(e),
        Ok(EventKind::Computation) => {
            let iops = struct_u32(event, C_COMP_IOPS);
            let flops = struct_u32(event, C_COMP_FLOPS);
            let writes = struct_u32(event, C_COMP_WRITES);
            let reads = struct_u32(event, C_COMP_READS);
            let write_list = match pointer_struct_list(struct_pointer(event, C_COMP_WRITE_ADDRS)) {
                Ok(list) => list,
                Err(_) => {
                    return Err(DecodeError::Malformed);
                },
            };
            let read_list = match pointer_struct_list(struct_pointer(event, C_COMP_READ_ADDRS)) {
                Ok(list) => list,
                Err(_) => {
                    return Err(DecodeError::Malformed);
                },
            };
            Ok(
                Event::Computation(
                    Computation::Ranges {
                        iops,
                        flops,
                        writes,
                        reads,
                        write_ranges: decode_ranges(&write_list),
                        read_ranges: decode_ranges(&read_list),
                    },
                ),
            )
        },
        Ok(EventKind::Communication) => {
            match pointer_struct_list(struct_pointer(event, C_COMM_EDGES)) {
                Ok(list) => match decode_edges(&list) {
                    Ok(edges) => Ok(Event::Communication(Communication::Edges { edges })),
                    Err(e) => Err(e),
                },
                Err(_) => Err(DecodeError::Malformed),
            }
        },
        Ok(EventKind::Synchronization) => match decode_sync(event) {
            Ok(sync) => Ok(Event::Synchronization(sync)),
            Err(e) => Err(e),
        },
        Ok(EventKind::Marker) => Ok(Event::Marker(decode_marker(event))),
    }
}

} // verus!
