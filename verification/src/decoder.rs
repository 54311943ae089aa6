//! Framing: a byte stream is a run of packed messages, each a list of
//! events. The decoder takes the messages off one at a time, and a message
//! hands out its events one at a time.

use crate::compressed;
use crate::error::DecodeError;
use crate::event::Event;
use crate::layout::STREAM_EVENTS;
use crate::uncompressed;
use crate::wire::{
    list_items, list_len, list_struct, message_root, packed_len, pointer_struct,
    pointer_struct_list, read_packed, struct_pointer,
};
use capnp::private::arena::ReaderArenaImpl;
use capnp::private::layout::ListReader;
use capnp::serialize::OwnedSegments;
use vstd::prelude::*;

verus! {

/// The most words of one message that may ever be traversed while it is
/// read: as many as the codec can be asked for.
pub const TRAVERSAL_LIMIT_WORDS: u64 = 0x8000_0000_0000_0000;

/// How many words one packed byte can stand for at most: two bytes can
/// spell a run of 256 zero words.
pub const WORDS_PER_PACKED_BYTE: u64 = 128;

/// The traversal limit for a message in `len` packed bytes: the most words
/// that so many bytes can hold, capped at [`TRAVERSAL_LIMIT_WORDS`].
///
/// Reading a message once traverses each of its words once, so no message
/// that the bytes can hold runs into this limit, however large it is. What
/// the limit keeps out is a message that announces more words than can be
/// there, or that leads to the same words over and over.
pub open spec fn traversal_limit_of(len: nat) -> u64 {
    if len > TRAVERSAL_LIMIT_WORDS / WORDS_PER_PACKED_BYTE {
        TRAVERSAL_LIMIT_WORDS
    } else {
        (len * WORDS_PER_PACKED_BYTE) as u64
    }
}

/// Computes [`traversal_limit_of`].
pub fn traversal_limit(len: usize) -> (limit: u64)
    ensures
        limit == traversal_limit_of(len as nat),
{
    let len = len as u64;
    if len > TRAVERSAL_LIMIT_WORDS / WORDS_PER_PACKED_BYTE {
        TRAVERSAL_LIMIT_WORDS
    } else {
        len * WORDS_PER_PACKED_BYTE
    }
}

/// The schema that a stream is written in. It is chosen once, when the
/// decoder is opened.
#[derive(Clone, Copy, Debug, PartialEq, Eq, Structural)]
pub enum Schema {
    Uncompressed,
    Compressed,
}

impl Schema {
    /// Whether `r` is a reading, under this schema, of the event whose data
    /// section is `data`.
    pub open spec fn decodes(self, data: Seq<u8>, r: Result<Event, DecodeError>) -> bool {
        match self {
            Schema::Uncompressed => uncompressed::decodes(data, r),
            Schema::Compressed => compressed::decodes(data, r),
        }
    }
}

/// One framed message, not yet read.
pub struct TraceMessage {
    arena: ReaderArenaImpl<OwnedSegments>,
    schema: Schema,
}

impl TraceMessage {
    /// The schema that the message is read under.
    pub closed spec fn schema(&self) -> Schema {
        self.schema
    }

    /// Finds the events of the message, without reading any. Fails where
    /// the message does not lead to a list of events.
    pub fn events(&self) -> (r: Result<Events<'_>, DecodeError>)
        ensures
            match r {
                Ok(events) => {
                    &&& events.wf()
                    &&& events.taken() == 0
                    &&& events.schema() == self.schema()
                },
                Err(e) => e == DecodeError::Malformed,
            },
    {
        let root = match message_root(&self.arena) {
            Ok(pointer) => pointer,
            Err(_) => {
                return Err(DecodeError::Malformed);
            },
        };
        let stream = match pointer_struct(root) {
            Ok(stream) => stream,
            Err(_) => {
                return Err(DecodeError::Malformed);
            },
        };
        match pointer_struct_list(struct_pointer(&stream, STREAM_EVENTS)) {
            Ok(list) => Ok(Events { list, schema: self.schema, taken: 0 }),
            Err(_) => Err(DecodeError::Malformed),
        }
    }
}

/// The events of one message, read one at a time from the front. An event
/// that was taken is not kept and cannot be taken again.
pub struct Events<'a> {
    list: ListReader<'a>,
    schema: Schema,
    taken: u32,
}

impl<'a> Events<'a> {
    /// The data section of each event of the message.
    pub closed spec fn items(&self) -> Seq<Seq<u8>> {
        list_items(self.list)
    }

    /// How many events have been taken.
    pub closed spec fn taken(&self) -> nat {
        self.taken as nat
    }

    /// The schema that the events are read under.
    pub closed spec fn schema(&self) -> Schema {
        self.schema
    }

    /// No more events have been taken than there are.
    pub open spec fn wf(&self) -> bool {
        self.taken() <= self.items().len()
    }

    /// The data sections of the events not yet taken.
    pub open spec fn left(&self) -> Seq<Seq<u8>> {
        self.items().skip(self.taken() as int)
    }

    /// Whether `events` are readings of the first events not yet taken,
    /// one for one and in order.
    pub open spec fn yields(&self, events: Seq<Event>) -> bool {
        &&& events.len() <= self.left().len()
        &&& forall|i: int|
            0 <= i < events.len() ==> self.schema().decodes(
                #[trigger] self.left()[i],
                Ok(events[i]),
            )
    }

    /// How many events are left to take.
    pub fn remaining(&self) -> (n: u32)
        requires
            self.wf(),
        ensures
            n == self.left().len(),
    {
        list_len(&self.list) - self.taken
    }

    /// Takes the next event and reads it. There is none exactly where all
    /// have been taken. An event that cannot be read is taken all the same.
    pub fn next_event(&mut self) -> (r: Option<Result<Event, DecodeError>>)
        requires
            old(self).wf(),
        ensures
            final(self).wf(),
            final(self).items() == old(self).items(),
            final(self).schema() == old(self).schema(),
            match r {
                None => old(self).left().len() == 0 && final(self).taken() == old(self).taken(),
                Some(event) => {
                    &&& old(self).left().len() > 0
                    &&& final(self).taken() == old(self).taken() + 1
                    &&& old(self).schema().decodes(old(self).left()[0], event)
                },
            },
    {
        if self.taken == list_len(&self.list) {
            return None;
        }
        let element = list_struct(&self.list, self.taken);
        self.taken = self.taken + 1;
        Some(
            match self.schema {
                Schema::Uncompressed => uncompressed::decode_event(&element),
                Schema::Compressed => compressed::decode_event(&element),
            },
        )
    }

    /// Takes all events that are left, in order, and stops at the first
    /// that cannot be read.
    pub fn read_all(&mut self) -> (r: Result<Vec<Event>, DecodeError>)
        requires
            old(self).wf(),
        ensures
            final(self).wf(),
            final(self).items() == old(self).items(),
            final(self).schema() == old(self).schema(),
            match r {
                Ok(events) => {
                    &&& events.len() == old(self).left().len()
                    &&& old(self).yields(events@)
                    &&& final(self).left().len() == 0
                },
                Err(e) => exists|i: int|
                    0 <= i < old(self).left().len() && old(self).schema().decodes(
                        #[trigger] old(self).left()[i],
                        Err(e),
                    ),
            },
    {
        let mut events: Vec<Event> = Vec::new();
        loop
            invariant
                self.wf(),
                self.items() == old(self).items(),
                self.schema() == old(self).schema(),
                self.taken() == old(self).taken() + events.len(),
                old(self).yields(events@),
            decreases self.left().len(),
        {
            let ghost index = events.len() as int;
            match self.next_event() {
                None => {
                    return Ok(events);
                },
                Some(Ok(event)) => {
                    events.push(event);
                },
                Some(Err(e)) => {
                    assert(old(self).schema().decodes(old(self).left()[index], Err(e)));
                    return Err(e);
                },
            }
        }
    }
}

impl<'a> Events<'a> {
    /// Takes all events that are left, reads each and keeps none. Stops at
    /// the first that cannot be read.
    pub fn walk(&mut self) -> (r: Result<(), DecodeError>)
        requires
            old(self).wf(),
        ensures
            final(self).wf(),
            final(self).items() == old(self).items(),
            final(self).schema() == old(self).schema(),
            match r {
                Ok(()) => final(self).left().len() == 0 && exists|events: Seq<Event>|
                    events.len() == old(self).left().len() && #[trigger] old(self).yields(events),
                Err(e) => exists|i: int|
                    0 <= i < old(self).left().len() && old(self).schema().decodes(
                        #[trigger] old(self).left()[i],
                        Err(e),
                    ),
            },
    {
        let ghost mut seen: Seq<Event> = Seq::empty();
        loop
            invariant
                self.wf(),
                self.items() == old(self).items(),
                self.schema() == old(self).schema(),
                self.taken() == old(self).taken() + seen.len(),
                old(self).yields(seen),
            decreases self.left().len(),
        {
            let ghost index = seen.len() as int;
            match self.next_event() {
                None => {
                    return Ok(());
                },
                Some(Ok(event)) => {
                    proof {
                        seen = seen.push(event);
                    }
                },
                Some(Err(e)) => {
                    assert(old(self).schema().decodes(old(self).left()[index], Err(e)));
                    return Err(e);
                },
            }
        }
    }
}

/// What a decoder hands out next.
pub enum Next {
    /// One more message.
    Message(TraceMessage),
    /// No byte is left.
    EndOfStream,
}

/// A byte stream and how far it has been decoded.
pub struct StreamDecoder<'a> {
    bytes: &'a [u8],
    position: usize,
    schema: Schema,
}

impl<'a> StreamDecoder<'a> {
    /// The bytes of the stream.
    pub closed spec fn bytes(&self) -> Seq<u8> {
        self.bytes@
    }

    /// How many bytes have been taken off.
    pub closed spec fn position(&self) -> nat {
        self.position as nat
    }

    /// The schema chosen at opening.
    pub closed spec fn schema(&self) -> Schema {
        self.schema
    }

    /// What is still to be decoded.
    pub open spec fn rest(&self) -> Seq<u8> {
        self.bytes().skip(self.position() as int)
    }

    /// How many bytes the next message takes, if the bytes still to be
    /// decoded start with a message.
    pub open spec fn next_len(&self) -> Option<nat> {
        packed_len(self.rest(), traversal_limit_of(self.rest().len()))
    }

    /// The position is within the stream.
    pub open spec fn wf(&self) -> bool {
        self.position() <= self.bytes().len()
    }

    /// Opens a decoder at the start of `bytes`.
    pub fn open(bytes: &'a [u8], schema: Schema) -> (decoder: StreamDecoder<'a>)
        ensures
            decoder.wf(),
            decoder.bytes() == bytes@,
            decoder.position() == 0,
            decoder.schema() == schema,
    {
        StreamDecoder { bytes, position: 0, schema }
    }

    /// How many bytes are still to be decoded.
    pub fn remaining(&self) -> (n: usize)
        requires
            self.wf(),
        ensures
            n == self.rest().len(),
    {
        self.bytes.len() - self.position
    }

    /// Takes the next message off the stream, without reading its events.
    ///
    /// The stream ends exactly where no byte is left: bytes that frame no
    /// message are an error, not an end. A message takes at least one
    /// byte; after an error the decoder stays where it was.
    pub fn next_message(&mut self) -> (r: Result<Next, DecodeError>)
        requires
            old(self).wf(),
        ensures
            final(self).wf(),
            final(self).bytes() == old(self).bytes(),
            final(self).schema() == old(self).schema(),
            match r {
                Ok(Next::EndOfStream) => {
                    &&& old(self).rest().len() == 0
                    &&& final(self).position() == old(self).position()
                },
                Ok(Next::Message(message)) => {
                    &&& old(self).rest().len() > 0
                    &&& old(self).next_len() matches Some(n)
                    &&& n > 0
                    &&& final(self).position() == old(self).position() + n
                    &&& message.schema() == old(self).schema()
                },
                Err(e) => {
                    &&& e == DecodeError::Malformed
                    &&& old(self).rest().len() > 0
                    &&& old(self).next_len() is None
                    &&& final(self).position() == old(self).position()
                },
            },
    {
        if self.position == self.bytes.len() {
            return Ok(Next::EndOfStream);
        }
        let limit = traversal_limit(self.bytes.len() - self.position);
        match read_packed(self.bytes, self.position, limit) {
            Ok((arena, rest)) => {
                self.position = self.bytes.len() - rest;
                Ok(Next::Message(TraceMessage { arena, schema: self.schema }))
            },
            Err(_) => Err(DecodeError::Malformed),
        }
    }
}

/// How many bytes the first message of a stream takes, if the stream
/// starts with a message.
pub open spec fn first_len(bytes: Seq<u8>) -> Option<nat> {
    packed_len(bytes, traversal_limit_of(bytes.len()))
}

/// Walks a whole stream, reading every event of every message and keeping
/// none: the stream is sound if every message in it frames and every event
/// in it reads. An empty stream is sound; one that does not start with a
/// message is malformed.
pub fn parse(bytes: &[u8], schema: Schema) -> (r: Result<(), DecodeError>)
    ensures
        bytes.len() == 0 ==> r is Ok,
        bytes.len() > 0 && first_len(bytes@) is None ==> r == Err::<(), DecodeError>(
            DecodeError::Malformed,
        ),
{
    let mut decoder = StreamDecoder::open(bytes, schema);
    assert(bytes@.skip(0) == bytes@);
    loop
        invariant
            decoder.wf(),
            decoder.bytes() == bytes@,
            decoder.position() > 0 ==> first_len(bytes@) is Some,
            bytes@.skip(0) == bytes@,
        decreases decoder.bytes().len() - decoder.position(),
    {
        let message = match decoder.next_message() {
            Err(e) => {
                return Err(e);
            },
            Ok(Next::EndOfStream) => {
                return Ok(());
            },
            Ok(Next::Message(message)) => message,
        };
        let mut events = match message.events() {
            Ok(events) => events,
            Err(e) => {
                return Err(e);
            },
        };
        match events.walk() {
            Ok(()) => {},
            Err(e) => {
                return Err(e);
            },
        }
    }
}

} // verus!
