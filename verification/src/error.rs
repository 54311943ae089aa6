use vstd::prelude::*;

verus! {

/// Why a message or an event in it could not be decoded.
#[derive(Clone, Copy, Debug, PartialEq, Eq, Structural)]
pub enum DecodeError {
    /// The bytes do not frame a message, or a pointer in the message does not
    /// lead where the schema says it must.
    Malformed,
    /// An event carries a union discriminant that names none of the four
    /// event kinds. The payload is the discriminant.
    UnknownEvent(u16),
    /// A computation event carries a memory tag that is none of
    /// `NoAccess`, `Read`, `Write`. The payload is the tag.
    UnknownMemType(u16),
}

/// Why a trace could not be processed. Every one of these is fatal: nothing
/// is retried and no partial result is kept.
#[derive(Clone, Copy, Debug, PartialEq, Eq, Structural)]
pub enum TraceError {
    /// The input's name does not end in a recognised extension.
    Configuration,
    /// The input's bytes could not be read: a gzip stream that does not
    /// inflate.
    Io,
    /// A message in the stream could not be decoded.
    Decode(DecodeError),
    /// An access counter would pass `u64::MAX`.
    Overflow,
}

} // verus!
