//! Streams that were damaged on the way: the decoder has to end each with a
//! reading or with an error, in bounded time and memory.

use capnp::private::layout::{
    ElementSize, PointerBuilder, PrimitiveElement, StructBuilder, StructSize,
};
use capnp::traits::FromPointerBuilder;
use stgen_trace::decoder::{parse, Next, Schema, StreamDecoder};
use stgen_trace::error::{DecodeError, TraceError};
use stgen_trace::frequency::Aggregator;

struct StreamRoot<'a>(StructBuilder<'a>);

const STREAM_SIZE: StructSize = StructSize { data: 0, pointers: 1 };
const RANGE: StructSize = StructSize { data: 2, pointers: 0 };

impl<'a> FromPointerBuilder<'a> for StreamRoot<'a> {
    fn init_pointer(builder: PointerBuilder<'a>, _length: u32) -> Self {
        StreamRoot(builder.init_struct(STREAM_SIZE))
    }

    fn get_from_pointer(
        builder: PointerBuilder<'a>,
        default: Option<&'a [capnp::Word]>,
    ) -> capnp::Result<Self> {
        Ok(StreamRoot(builder.get_struct(STREAM_SIZE, default)?))
    }
}

/// A fixed sequence of numbers that looks random.
fn step(seed: &mut u64) -> u32 {
    *seed = seed.wrapping_mul(6364136223846793005).wrapping_add(1442695040888963407);
    (*seed >> 33) as u32
}

fn put_ranges(pointer: PointerBuilder, seed: &mut u64) {
    let list = pointer.init_struct_list(step(seed) % 4, RANGE);
    for i in 0..list.len() {
        list.get_struct_element(i).set_data_field::<u64>(0, u64::from(step(seed)));
    }
}

/// One packed message with up to five events of any kind.
fn sample(seed: &mut u64, schema: Schema) -> Vec<u8> {
    let (size, which_slot) = match schema {
        Schema::Uncompressed => (StructSize { data: 4, pointers: 1 }, 12),
        Schema::Compressed => (StructSize { data: 3, pointers: 2 }, 8),
    };
    let mut builder = capnp::message::Builder::new_default();
    {
        let root: StreamRoot = builder.init_root();
        let list = root.0.get_pointer_field(0).init_struct_list(step(seed) % 6, size);
        for i in 0..list.len() {
            let event = list.get_struct_element(i);
            let which = (step(seed) % 4) as u16;
            event.set_data_field::<u64>(0, u64::from(step(seed) % 3));
            event.set_data_field::<u64>(1, u64::from(step(seed)));
            event.set_data_field::<u16>(which_slot, which);
            match (schema, which) {
                (_, 2) => {
                    let args =
                        event.get_pointer_field(0).init_list(ElementSize::EightBytes, step(seed) % 4);
                    for j in 0..args.len() {
                        PrimitiveElement::set(&args, j, u64::from(step(seed)));
                    }
                }
                (Schema::Compressed, 0) => {
                    put_ranges(event.get_pointer_field(0), seed);
                    put_ranges(event.get_pointer_field(1), seed);
                }
                (Schema::Compressed, 1) => {
                    let edges = event
                        .get_pointer_field(0)
                        .init_struct_list(step(seed) % 3, StructSize { data: 1, pointers: 1 });
                    for j in 0..edges.len() {
                        put_ranges(edges.get_struct_element(j).get_pointer_field(0), seed);
                    }
                }
                _ => {}
            }
        }
    }
    let mut bytes = Vec::new();
    capnp::serialize_packed::write_message(&mut bytes, &builder).unwrap();
    bytes
}

#[test]
fn damaged_streams_end_in_a_reading_or_an_error() {
    let mut seed = 0x1234_5678_9abc_def0u64;
    let mut read = 0u32;
    let mut refused = 0u32;
    for round in 0..4000u32 {
        let written = if round % 2 == 0 { Schema::Compressed } else { Schema::Uncompressed };
        let mut bytes = sample(&mut seed, written);
        if round % 3 != 0 {
            bytes.extend(sample(&mut seed, written));
        }
        for _ in 0..step(&mut seed) % 4 {
            let at = step(&mut seed) as usize % bytes.len();
            bytes[at] ^= step(&mut seed) as u8;
        }
        if round % 7 == 0 {
            bytes.truncate(step(&mut seed) as usize % (bytes.len() + 1));
        }
        for schema in [Schema::Uncompressed, Schema::Compressed] {
            let walked = parse(&bytes, schema);
            let mut aggregator = Aggregator::new();
            let counted = aggregator.add_stream(&bytes, schema);
            // Walking and counting read the same events.
            assert_eq!(counted, walked.map_err(TraceError::Decode));
            match walked {
                Ok(()) => read += 1,
                Err(_) => refused += 1,
            }
        }
    }
    assert!(read > 1000, "{}", read);
    assert!(refused > 1000, "{}", refused);
}

#[test]
fn undamaged_streams_are_read_whole() {
    let mut seed = 0x0bad_cafe_0000_0001u64;
    for round in 0..500u32 {
        let schema = if round % 2 == 0 { Schema::Compressed } else { Schema::Uncompressed };
        let mut bytes = Vec::new();
        for _ in 0..step(&mut seed) % 4 {
            bytes.extend(sample(&mut seed, schema));
        }
        assert_eq!(parse(&bytes, schema), Ok(()));
    }
}

#[test]
fn arbitrary_bytes_are_never_taken_for_an_end() {
    let mut seed = 0x0fed_cba9_8765_4321u64;
    for _ in 0..20000u32 {
        let len = 1 + step(&mut seed) as usize % 48;
        let bytes: Vec<u8> = (0..len).map(|_| step(&mut seed) as u8).collect();
        let mut decoder = StreamDecoder::open(&bytes, Schema::Uncompressed);
        match decoder.next_message() {
            Ok(Next::EndOfStream) => panic!("an end was reported with {} bytes left", len),
            Ok(Next::Message(_)) => assert!(decoder.remaining() < len),
            Err(e) => {
                assert_eq!(e, DecodeError::Malformed);
                assert_eq!(decoder.remaining(), len);
            }
        }
    }
}

#[test]
fn a_message_that_announces_more_than_can_be_there_is_refused() {
    // One segment of 0x7fff_ffff words, in a stream of ten bytes.
    let header = [0xf0u8, 0xff, 0xff, 0xff, 0x7f, 0, 0, 0, 0, 0];
    assert_eq!(parse(&header, Schema::Uncompressed), Err(DecodeError::Malformed));
    let mut aggregator = Aggregator::new();
    assert_eq!(
        aggregator.add_stream(&header, Schema::Compressed),
        Err(TraceError::Decode(DecodeError::Malformed))
    );
}
