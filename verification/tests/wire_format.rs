//! Streams built with `capnp`'s own builders, then decoded by the library.

use capnp::private::layout::{
    ElementSize, PointerBuilder, PrimitiveElement, StructBuilder, StructSize,
};
use capnp::traits::FromPointerBuilder;
use stgen_trace::decoder::{parse, Next, Schema, StreamDecoder};
use stgen_trace::error::{DecodeError, TraceError};
use stgen_trace::event::{
    AddressRange, Communication, Computation, Edge, Event, Marker, MemType, SyncType,
    Synchronization,
};
use stgen_trace::frequency::Aggregator;
use stgen_trace::input::{trace_bytes, InputKind};
use stgen_trace::metrics::{parse_capnp, TraceFile};
use std::io::Write;

/// The root struct of a stream: no data, one pointer to the list of events.
struct StreamRoot<'a>(StructBuilder<'a>);

const STREAM_SIZE: StructSize = StructSize { data: 0, pointers: 1 };

impl<'a> FromPointerBuilder<'a> for StreamRoot<'a> {
    fn init_pointer(builder: PointerBuilder<'a>, _length: u32) -> Self {
        StreamRoot(builder.init_struct(STREAM_SIZE))
    }

    fn get_from_pointer(
        builder: PointerBuilder<'a>,
        default: Option<&'a [capnp::Word]>,
    ) -> capnp::Result<Self> {
        Ok(StreamRoot(builder.get_struct(STREAM_SIZE, default)?))
    }
}

const UNCOMPRESSED_EVENT: StructSize = StructSize { data: 4, pointers: 1 };
const COMPRESSED_EVENT: StructSize = StructSize { data: 3, pointers: 2 };
const EDGE: StructSize = StructSize { data: 1, pointers: 1 };
const RANGE: StructSize = StructSize { data: 2, pointers: 0 };

fn mem_number(mem: MemType) -> u16 {
    match mem {
        MemType::NoAccess => 0,
        MemType::Read => 1,
        MemType::Write => 2,
    }
}

fn sync_number(kind: SyncType) -> u16 {
    match kind {
        SyncType::Spawn => 0,
        SyncType::Join => 1,
        SyncType::Barrier => 2,
        SyncType::Lock => 3,
        SyncType::Unlock => 4,
        SyncType::Other(n) => n,
    }
}

fn put_words(pointer: PointerBuilder, words: &[u64]) {
    let list = pointer.init_list(ElementSize::EightBytes, words.len() as u32);
    for (i, word) in words.iter().enumerate() {
        PrimitiveElement::set(&list, i as u32, *word);
    }
}

fn put_ranges(pointer: PointerBuilder, ranges: &[AddressRange]) {
    let list = pointer.init_struct_list(ranges.len() as u32, RANGE);
    for (i, range) in ranges.iter().enumerate() {
        let element = list.get_struct_element(i as u32);
        element.set_data_field::<u64>(0, range.start);
        element.set_data_field::<u64>(1, range.end);
    }
}

fn put_sync(event: StructBuilder, sync: &Synchronization) {
    event.set_data_field::<u16>(0, sync_number(sync.kind));
    put_words(event.get_pointer_field(0), &sync.args);
}

fn put_uncompressed(event: StructBuilder, value: &Event) {
    match value {
        Event::Computation(Computation::Single { iops, flops, mem, range }) => {
            event.set_data_field::<u16>(12, 0);
            event.set_data_field::<u16>(0, *iops);
            event.set_data_field::<u16>(1, *flops);
            event.set_data_field::<u16>(2, mem_number(*mem));
            event.set_data_field::<u64>(1, range.start);
            event.set_data_field::<u64>(2, range.end);
        }
        Event::Communication(Communication::Single { producer_event, producer_thread, range }) => {
            event.set_data_field::<u16>(12, 1);
            event.set_data_field::<u32>(0, *producer_event);
            event.set_data_field::<u16>(2, *producer_thread);
            event.set_data_field::<u64>(1, range.start);
            event.set_data_field::<u64>(2, range.end);
        }
        Event::Synchronization(sync) => {
            event.set_data_field::<u16>(12, 2);
            put_sync(event, sync);
        }
        Event::Marker(marker) => {
            event.set_data_field::<u16>(12, 3);
            event.set_data_field::<u16>(0, marker.count);
        }
        _ => panic!("not an event of the uncompressed schema"),
    }
}

fn put_compressed(event: StructBuilder, value: &Event) {
    match value {
        Event::Computation(Computation::Ranges {
            iops,
            flops,
            writes,
            reads,
            write_ranges,
            read_ranges,
        }) => {
            event.set_data_field::<u16>(8, 0);
            event.set_data_field::<u32>(0, *iops);
            event.set_data_field::<u32>(1, *flops);
            event.set_data_field::<u32>(2, *writes);
            event.set_data_field::<u32>(3, *reads);
            put_ranges(event.get_pointer_field(0), write_ranges);
            put_ranges(event.get_pointer_field(1), read_ranges);
        }
        Event::Communication(Communication::Edges { edges }) => {
            event.set_data_field::<u16>(8, 1);
            let list = event.get_pointer_field(0).init_struct_list(edges.len() as u32, EDGE);
            for (i, edge) in edges.iter().enumerate() {
                let element = list.get_struct_element(i as u32);
                element.set_data_field::<u32>(0, edge.producer_event);
                element.set_data_field::<u16>(2, edge.producer_thread);
                put_ranges(element.get_pointer_field(0), &edge.ranges);
            }
        }
        Event::Synchronization(sync) => {
            event.set_data_field::<u16>(8, 2);
            put_sync(event, sync);
        }
        Event::Marker(marker) => {
            event.set_data_field::<u16>(8, 3);
            event.set_data_field::<u16>(0, marker.count);
        }
        _ => panic!("not an event of the compressed schema"),
    }
}

/// One packed message with the given events.
fn message(schema: Schema, events: &[Event]) -> Vec<u8> {
    let mut builder = capnp::message::Builder::new_default();
    {
        let root: StreamRoot = builder.init_root();
        let size = match schema {
            Schema::Uncompressed => UNCOMPRESSED_EVENT,
            Schema::Compressed => COMPRESSED_EVENT,
        };
        let list = root.0.get_pointer_field(0).init_struct_list(events.len() as u32, size);
        for (i, value) in events.iter().enumerate() {
            let element = list.get_struct_element(i as u32);
            match schema {
                Schema::Uncompressed => put_uncompressed(element, value),
                Schema::Compressed => put_compressed(element, value),
            }
        }
    }
    let mut bytes = Vec::new();
    capnp::serialize_packed::write_message(&mut bytes, &builder).unwrap();
    bytes
}

/// One packed message with a single uncompressed event whose fields are
/// set slot by slot.
fn raw_uncompressed(which: u16, tag: u16) -> Vec<u8> {
    let mut builder = capnp::message::Builder::new_default();
    {
        let root: StreamRoot = builder.init_root();
        let list = root.0.get_pointer_field(0).init_struct_list(1, UNCOMPRESSED_EVENT);
        let element = list.get_struct_element(0);
        element.set_data_field::<u16>(12, which);
        element.set_data_field::<u16>(2, tag);
        element.set_data_field::<u64>(1, 0x1000);
    }
    let mut bytes = Vec::new();
    capnp::serialize_packed::write_message(&mut bytes, &builder).unwrap();
    bytes
}

fn gzip(bytes: &[u8]) -> Vec<u8> {
    let mut encoder = flate2::write::GzEncoder::new(Vec::new(), flate2::Compression::default());
    encoder.write_all(bytes).unwrap();
    encoder.finish().unwrap()
}

fn read_at(addr: u64) -> Event {
    Event::Computation(Computation::Single {
        iops: 1,
        flops: 0,
        mem: MemType::Read,
        range: AddressRange { start: addr, end: addr + 7 },
    })
}

fn write_at(addr: u64) -> Event {
    Event::Computation(Computation::Single {
        iops: 0,
        flops: 2,
        mem: MemType::Write,
        range: AddressRange { start: addr, end: addr + 3 },
    })
}

/// The events of the next message, `None` at the end of the stream.
fn next_events(decoder: &mut StreamDecoder) -> Result<Option<Vec<Event>>, DecodeError> {
    match decoder.next_message()? {
        Next::Message(message) => Ok(Some(message.events()?.read_all()?)),
        Next::EndOfStream => Ok(None),
    }
}

fn all_messages(bytes: &[u8], schema: Schema) -> Result<Vec<Vec<Event>>, DecodeError> {
    let mut decoder = StreamDecoder::open(bytes, schema);
    let mut messages = Vec::new();
    while let Some(events) = next_events(&mut decoder)? {
        messages.push(events);
    }
    Ok(messages)
}

#[test]
fn empty_stream_ends_at_once() {
    let mut decoder = StreamDecoder::open(&[], Schema::Uncompressed);
    assert_eq!(decoder.remaining(), 0);
    assert!(matches!(decoder.next_message(), Ok(Next::EndOfStream)));
    assert!(matches!(decoder.next_message(), Ok(Next::EndOfStream)));
    assert_eq!(parse(&[], Schema::Compressed), Ok(()));
}

#[test]
fn uncompressed_events_come_back_as_written() {
    let events = vec![
        read_at(0x1000),
        write_at(0x2000),
        Event::Computation(Computation::Single {
            iops: 65535,
            flops: 7,
            mem: MemType::NoAccess,
            range: AddressRange { start: 0, end: 0 },
        }),
        Event::Communication(Communication::Single {
            producer_event: 0xdead_beef,
            producer_thread: 12,
            range: AddressRange { start: 0xffff_ffff_ffff_fff0, end: u64::MAX },
        }),
        Event::Synchronization(Synchronization { kind: SyncType::Barrier, args: vec![1, 2, 3] }),
        Event::Synchronization(Synchronization { kind: SyncType::Unlock, args: vec![] }),
        Event::Marker(Marker { count: 100 }),
    ];
    let bytes = message(Schema::Uncompressed, &events);
    assert_eq!(all_messages(&bytes, Schema::Uncompressed), Ok(vec![events]));
    assert_eq!(parse(&bytes, Schema::Uncompressed), Ok(()));
}

#[test]
fn compressed_events_come_back_as_written() {
    let events = vec![
        Event::Computation(Computation::Ranges {
            iops: 70_000,
            flops: 3,
            writes: 2,
            reads: 1,
            write_ranges: vec![
                AddressRange { start: 0x10, end: 0x1f },
                AddressRange { start: 0x40, end: 0x47 },
            ],
            read_ranges: vec![AddressRange { start: 0x80, end: 0x87 }],
        }),
        Event::Computation(Computation::Ranges {
            iops: 0,
            flops: 0,
            writes: 0,
            reads: 0,
            write_ranges: vec![],
            read_ranges: vec![],
        }),
        Event::Communication(Communication::Edges {
            edges: vec![
                Edge {
                    producer_event: 5,
                    producer_thread: 2,
                    ranges: vec![
                        AddressRange { start: 0x2000, end: 0x2007 },
                        AddressRange { start: 0x3000, end: 0x3003 },
                    ],
                },
                Edge { producer_event: 6, producer_thread: 3, ranges: vec![] },
            ],
        }),
        Event::Synchronization(Synchronization { kind: SyncType::Spawn, args: vec![42] }),
        Event::Marker(Marker { count: 9 }),
    ];
    let bytes = message(Schema::Compressed, &events);
    assert_eq!(all_messages(&bytes, Schema::Compressed), Ok(vec![events]));
    assert_eq!(parse(&bytes, Schema::Compressed), Ok(()));
}

#[test]
fn messages_are_framed_one_after_another() {
    let first = vec![read_at(1), read_at(2)];
    let second = vec![Event::Marker(Marker { count: 1 })];
    let third: Vec<Event> = vec![];
    let mut bytes = message(Schema::Uncompressed, &first);
    let first_len = bytes.len();
    bytes.extend(message(Schema::Uncompressed, &second));
    bytes.extend(message(Schema::Uncompressed, &third));

    let mut decoder = StreamDecoder::open(&bytes, Schema::Uncompressed);
    assert_eq!(decoder.remaining(), bytes.len());
    assert_eq!(next_events(&mut decoder), Ok(Some(first)));
    assert_eq!(decoder.remaining(), bytes.len() - first_len);
    assert_eq!(next_events(&mut decoder), Ok(Some(second)));
    assert_eq!(next_events(&mut decoder), Ok(Some(third)));
    assert_eq!(decoder.remaining(), 0);
    assert_eq!(next_events(&mut decoder), Ok(None));
}

#[test]
fn events_are_taken_one_at_a_time() {
    let bytes = message(
        Schema::Uncompressed,
        &[read_at(1), Event::Marker(Marker { count: 2 }), write_at(3)],
    );
    let mut decoder = StreamDecoder::open(&bytes, Schema::Uncompressed);
    let message = match decoder.next_message() {
        Ok(Next::Message(message)) => message,
        _ => panic!("a message was expected"),
    };
    assert_eq!(decoder.remaining(), 0);
    let mut events = message.events().unwrap();
    assert_eq!(events.remaining(), 3);
    assert_eq!(events.next_event(), Some(Ok(read_at(1))));
    assert_eq!(events.remaining(), 2);
    assert_eq!(events.next_event(), Some(Ok(Event::Marker(Marker { count: 2 }))));
    assert_eq!(events.read_all(), Ok(vec![write_at(3)]));
    assert_eq!(events.remaining(), 0);
    assert_eq!(events.next_event(), None);
    assert_eq!(events.read_all(), Ok(vec![]));

    let mut again = message.events().unwrap();
    assert_eq!(again.walk(), Ok(()));
    assert_eq!(again.remaining(), 0);
}

#[test]
fn an_event_that_cannot_be_read_is_taken_all_the_same() {
    let mut builder_bytes = raw_uncompressed(7, 0);
    builder_bytes.extend(message(Schema::Uncompressed, &[read_at(1)]));
    let mut decoder = StreamDecoder::open(&builder_bytes, Schema::Uncompressed);
    let message = match decoder.next_message() {
        Ok(Next::Message(message)) => message,
        _ => panic!("a message was expected"),
    };
    let mut events = message.events().unwrap();
    assert_eq!(events.next_event(), Some(Err(DecodeError::UnknownEvent(7))));
    assert_eq!(events.next_event(), None);
    assert_eq!(message.events().unwrap().walk(), Err(DecodeError::UnknownEvent(7)));
    assert_eq!(next_events(&mut decoder), Ok(Some(vec![read_at(1)])));
}

#[test]
fn bytes_that_frame_no_message_are_an_error_not_an_end() {
    let garbage = [0xffu8, 1, 2, 3];
    let mut decoder = StreamDecoder::open(&garbage, Schema::Uncompressed);
    assert!(matches!(decoder.next_message(), Err(DecodeError::Malformed)));
    assert_eq!(decoder.remaining(), garbage.len());
    assert_eq!(parse(&garbage, Schema::Uncompressed), Err(DecodeError::Malformed));
}

#[test]
fn a_message_cut_short_is_malformed() {
    let mut bytes = message(Schema::Uncompressed, &[read_at(1), write_at(2)]);
    bytes.truncate(bytes.len() - 3);
    assert_eq!(parse(&bytes, Schema::Uncompressed), Err(DecodeError::Malformed));
}

#[test]
fn trailing_bytes_after_a_message_are_malformed() {
    let mut bytes = message(Schema::Uncompressed, &[read_at(1)]);
    bytes.push(0x01);
    let mut decoder = StreamDecoder::open(&bytes, Schema::Uncompressed);
    assert_eq!(next_events(&mut decoder), Ok(Some(vec![read_at(1)])));
    assert_eq!(next_events(&mut decoder), Err(DecodeError::Malformed));
}

#[test]
fn unknown_event_kind_is_fatal() {
    let bytes = raw_uncompressed(9, 1);
    assert_eq!(parse(&bytes, Schema::Uncompressed), Err(DecodeError::UnknownEvent(9)));
    let mut aggregator = Aggregator::new();
    assert_eq!(
        aggregator.add_stream(&bytes, Schema::Uncompressed),
        Err(TraceError::Decode(DecodeError::UnknownEvent(9)))
    );
}

#[test]
fn unknown_memory_tag_is_fatal() {
    let bytes = raw_uncompressed(0, 3);
    assert_eq!(parse(&bytes, Schema::Uncompressed), Err(DecodeError::UnknownMemType(3)));
}

#[test]
fn unknown_sync_kind_is_kept_and_counts_for_nothing() {
    let events = vec![Event::Synchronization(Synchronization {
        kind: SyncType::Other(77),
        args: vec![5, 6],
    })];
    let bytes = message(Schema::Uncompressed, &events);
    assert_eq!(all_messages(&bytes, Schema::Uncompressed), Ok(vec![events]));
    let mut aggregator = Aggregator::new();
    assert_eq!(aggregator.add_stream(&bytes, Schema::Uncompressed), Ok(()));
    assert_eq!(aggregator.reads.total_count(), 0);
    assert_eq!(aggregator.writes.total_count(), 0);
}

#[test]
fn an_event_read_under_the_other_schema_is_not_what_was_written() {
    let bytes = message(Schema::Compressed, &[Event::Marker(Marker { count: 9 })]);
    // A compressed event has three words of data. The uncompressed
    // discriminant lies in a fourth, which reads as zero.
    let read = all_messages(&bytes, Schema::Uncompressed).unwrap();
    assert_eq!(read.len(), 1);
    assert!(matches!(read[0][0], Event::Computation(_)));
}

#[test]
fn two_reads_of_one_address_make_one_entry_of_two() {
    let bytes = message(Schema::Uncompressed, &[read_at(0x1000), read_at(0x1000)]);
    let mut aggregator = Aggregator::new();
    assert_eq!(aggregator.add_stream(&bytes, Schema::Uncompressed), Ok(()));
    assert_eq!(aggregator.reads.total_count(), 2);
    assert_eq!(aggregator.reads.unique(), 1);
    assert_eq!(aggregator.reads.counts().get(&0x1000), Some(&2));
    assert_eq!(aggregator.writes.total_count(), 0);
    assert_eq!(aggregator.writes.unique(), 0);
    let report = aggregator.report();
    assert_eq!(report.reads.ranked, vec![(0x1000, 2)]);
    assert_eq!(report.reads.total, 2);
}

#[test]
fn a_communication_counts_as_a_read() {
    let events = vec![Event::Communication(Communication::Single {
        producer_event: 3,
        producer_thread: 1,
        range: AddressRange { start: 0x2000, end: 0x2fff },
    })];
    let bytes = message(Schema::Uncompressed, &events);
    let mut aggregator = Aggregator::new();
    assert_eq!(aggregator.add_stream(&bytes, Schema::Uncompressed), Ok(()));
    assert_eq!(aggregator.reads.counts().get(&0x2000), Some(&1));
    assert_eq!(aggregator.reads.total_count(), 1);
    assert_eq!(aggregator.writes.total_count(), 0);
    assert!(aggregator.writes.counts().is_empty());
}

#[test]
fn compressed_ranges_count_by_the_list_they_are_in() {
    let events = vec![
        Event::Computation(Computation::Ranges {
            iops: 1,
            flops: 1,
            writes: 2,
            reads: 2,
            write_ranges: vec![
                AddressRange { start: 0x10, end: 0x1f },
                AddressRange { start: 0x10, end: 0x13 },
            ],
            read_ranges: vec![
                AddressRange { start: 0x80, end: 0x87 },
                AddressRange { start: 0x90, end: 0x97 },
            ],
        }),
        Event::Communication(Communication::Edges {
            edges: vec![
                Edge {
                    producer_event: 5,
                    producer_thread: 2,
                    ranges: vec![
                        AddressRange { start: 0x80, end: 0x87 },
                        AddressRange { start: 0x3000, end: 0x3003 },
                    ],
                },
                Edge {
                    producer_event: 6,
                    producer_thread: 3,
                    ranges: vec![AddressRange { start: 0x80, end: 0x81 }],
                },
            ],
        }),
    ];
    let bytes = message(Schema::Compressed, &events);
    let mut aggregator = Aggregator::new();
    assert_eq!(aggregator.add_stream(&bytes, Schema::Compressed), Ok(()));
    assert_eq!(aggregator.writes.total_count(), 2);
    assert_eq!(aggregator.writes.counts().get(&0x10), Some(&2));
    assert_eq!(aggregator.writes.unique(), 1);
    assert_eq!(aggregator.reads.total_count(), 5);
    assert_eq!(aggregator.reads.counts().get(&0x80), Some(&3));
    assert_eq!(aggregator.reads.counts().get(&0x90), Some(&1));
    assert_eq!(aggregator.reads.counts().get(&0x3000), Some(&1));
    assert_eq!(aggregator.reads.unique(), 3);
}

#[test]
fn a_message_is_counted_event_by_event() {
    let bytes = message(
        Schema::Uncompressed,
        &[read_at(0x10), write_at(0x10), read_at(0x10), read_at(0x20)],
    );
    let mut decoder = StreamDecoder::open(&bytes, Schema::Uncompressed);
    let message = match decoder.next_message() {
        Ok(Next::Message(message)) => message,
        _ => panic!("a message was expected"),
    };
    let mut events = message.events().unwrap();
    assert_eq!(events.next_event(), Some(Ok(read_at(0x10))));
    let mut aggregator = Aggregator::new();
    assert_eq!(aggregator.add_message(&mut events), Ok(()));
    assert_eq!(events.remaining(), 0);
    // The event taken before is not counted.
    assert_eq!(aggregator.reads.total_count(), 2);
    assert_eq!(aggregator.reads.counts().get(&0x10), Some(&1));
    assert_eq!(aggregator.reads.counts().get(&0x20), Some(&1));
    assert_eq!(aggregator.writes.total_count(), 1);
    assert_eq!(aggregator.add_message(&mut events), Ok(()));
    assert_eq!(aggregator.reads.total_count(), 2);
}

#[test]
fn counting_stops_at_an_event_that_cannot_be_read() {
    let mut bytes = message(Schema::Uncompressed, &[read_at(0x10)]);
    bytes.extend(raw_uncompressed(0, 9));
    bytes.extend(message(Schema::Uncompressed, &[read_at(0x20)]));
    let mut aggregator = Aggregator::new();
    assert_eq!(
        aggregator.add_stream(&bytes, Schema::Uncompressed),
        Err(TraceError::Decode(DecodeError::UnknownMemType(9)))
    );
    assert_eq!(aggregator.reads.total_count(), 1);
    assert_eq!(aggregator.reads.counts().get(&0x20), None);
}

#[test]
fn a_failing_stream_leaves_no_report() {
    let mut bytes = message(Schema::Uncompressed, &[read_at(1)]);
    bytes.extend(raw_uncompressed(4, 0));
    let files = vec![TraceFile { name: String::from("t0.capnp.bin.gz"), contents: gzip(&bytes) }];
    assert_eq!(parse_capnp(&files), Err(TraceError::Decode(DecodeError::UnknownEvent(4))));
}

#[test]
fn gzip_contents_inflate_to_the_messages() {
    let bytes = message(Schema::Uncompressed, &[read_at(1), write_at(2)]);
    let packed = gzip(&bytes);
    assert_ne!(packed, bytes);
    assert_eq!(trace_bytes("trace.gz", packed.clone()), Ok(bytes.clone()));
    assert_eq!(trace_bytes("trace.bin", bytes.clone()), Ok(bytes.clone()));
    assert_eq!(trace_bytes("trace.bin", packed.clone()), Ok(packed));
}

#[test]
fn contents_that_do_not_inflate_are_an_io_error() {
    let bytes = message(Schema::Uncompressed, &[read_at(1)]);
    assert_eq!(trace_bytes("trace.gz", bytes.clone()), Err(TraceError::Io));
    let mut cut = gzip(&bytes);
    cut.truncate(cut.len() - 5);
    assert_eq!(trace_bytes("trace.gz", cut.clone()), Err(TraceError::Io));
    let mut aggregator = Aggregator::new();
    assert_eq!(
        aggregator.add_trace(InputKind::Gzip, &cut, Schema::Uncompressed),
        Err(TraceError::Io)
    );
    assert_eq!(aggregator.reads.total_count(), 0);
}

#[test]
fn a_directory_is_aggregated_over_its_gz_entries_only() {
    let thread_one = message(
        Schema::Uncompressed,
        &[read_at(0x1000), write_at(0x2000), read_at(0x1000), read_at(0x1400)],
    );
    let mut thread_two = message(Schema::Uncompressed, &[write_at(0x2000)]);
    thread_two.extend(message(Schema::Uncompressed, &[read_at(0x9000), write_at(0x2004)]));
    let files = vec![
        TraceFile { name: String::from("events.out-1.capnp.bin.gz"), contents: gzip(&thread_one) },
        TraceFile { name: String::from("notes.txt"), contents: vec![1, 2, 3] },
        TraceFile { name: String::from("events.out-2.capnp.bin.gz"), contents: gzip(&thread_two) },
        TraceFile { name: String::from("raw.bin"), contents: thread_one.clone() },
        TraceFile { name: String::from(".gz"), contents: vec![9] },
    ];
    let report = parse_capnp(&files).unwrap();

    assert_eq!(report.reads.total, 4);
    assert_eq!(report.reads.unique, 3);
    assert_eq!(report.reads.ranked[0], (0x1000, 2));
    // Nine tenths of 4, rounded down, is 3: the counts 2 and 1 stay within.
    assert_eq!(report.reads.ninety, 2);
    let mut read_regions = report.reads.regions.clone();
    read_regions.sort();
    assert_eq!(read_regions, vec![(4, 2), (5, 1), (36, 1)]);

    assert_eq!(report.writes.total, 3);
    assert_eq!(report.writes.unique, 2);
    assert_eq!(report.writes.ranked, vec![(0x2000, 2), (0x2004, 1)]);
    assert_eq!(report.writes.ninety, 1);
    assert_eq!(report.writes.regions, vec![(8, 3)]);
}

#[test]
fn a_directory_without_traces_reports_nothing() {
    let files = vec![TraceFile { name: String::from("readme.md"), contents: vec![0xff] }];
    let report = parse_capnp(&files).unwrap();
    assert_eq!(report.reads.total, 0);
    assert_eq!(report.reads.unique, 0);
    assert_eq!(report.reads.ninety, 0);
    assert!(report.reads.ranked.is_empty());
    assert!(report.reads.regions.is_empty());
    assert_eq!(report.writes.total, 0);
    assert!(report.writes.ranked.is_empty());
}
