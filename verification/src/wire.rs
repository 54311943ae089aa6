//! The calls into `capnp` and `flate2`.
//!
//! Nothing in this module is proved. Each function here makes one call into
//! an outside crate, and its contract is what the rest of the crate takes on
//! trust about that call. The contracts speak of four things that only the
//! outside crates compute: the bytes of a struct's data section, the data
//! sections of a list's elements, how many bytes a packed message takes,
//! and what a gzip stream inflates to. Nothing is said of where a pointer
//! leads: following one draws on the message's traversal budget, so the
//! same pointer need not lead to the same place twice.

use capnp::private::arena::{ReaderArena, ReaderArenaImpl};
use capnp::private::layout::{ElementSize, ListReader, PointerReader, StructReader};
use capnp::serialize::OwnedSegments;
use std::io::Read;
use vstd::prelude::*;

verus! {

/// `capnp`'s reader of one struct of a message.
#[verifier::external_type_specification]
#[verifier::external_body]
pub struct ExStructReader<'a>(StructReader<'a>);

/// `capnp`'s reader of one list of a message.
#[verifier::external_type_specification]
#[verifier::external_body]
pub struct ExListReader<'a>(ListReader<'a>);

/// `capnp`'s reader of one pointer of a message, not yet followed.
#[verifier::external_type_specification]
#[verifier::external_body]
pub struct ExPointerReader<'a>(PointerReader<'a>);

/// `capnp`'s holder of the segments of a message that is being read, with
/// the traversal budget that is left.
#[verifier::external_type_specification]
#[verifier::external_body]
#[verifier::reject_recursive_types(S)]
pub struct ExReaderArenaImpl<S>(ReaderArenaImpl<S>);

/// `capnp`'s own copy of the segments of a message.
#[verifier::external_type_specification]
#[verifier::external_body]
pub struct ExOwnedSegments(OwnedSegments);

/// `capnp`'s error. It is never looked into.
#[verifier::external_type_specification]
#[verifier::external_body]
pub struct ExCapnpError(capnp::Error);

/// The error of a failed read. It is never looked into.
#[verifier::external_type_specification]
#[verifier::external_body]
pub struct ExIoError(std::io::Error);

/// The bytes of the data section of the struct that `s` reads.
pub uninterp spec fn struct_data(s: StructReader<'_>) -> Seq<u8>;

/// For each element of the list that `l` reads, the bytes of the element's
/// data section.
pub uninterp spec fn list_items(l: ListReader<'_>) -> Seq<Seq<u8>>;

/// How many bytes the packed message at the start of `bytes` takes, if
/// there is one and it announces no more than `limit` words.
pub uninterp spec fn packed_len(bytes: Seq<u8>, limit: u64) -> Option<nat>;

/// What the first member of the gzip stream `bytes` inflates to, if it
/// inflates at all.
pub uninterp spec fn inflated(bytes: Seq<u8>) -> Option<Seq<u8>>;

/// The number that `bytes` spell, least significant byte first.
pub open spec fn le_value(bytes: Seq<u8>) -> nat
    decreases bytes.len(),
{
    if bytes.len() == 0 {
        0
    } else {
        bytes[0] as nat + 256 * le_value(bytes.drop_first())
    }
}

/// The field of `width` bytes in slot `slot` of a data section: the
/// little-endian number at byte `width * slot`, or zero where the section
/// ends before the field does.
pub open spec fn field(data: Seq<u8>, slot: int, width: int) -> nat {
    if 0 <= slot && width * (slot + 1) <= data.len() {
        le_value(data.subrange(width * slot, width * (slot + 1)))
    } else {
        0
    }
}

/// `StructReader::get_data_field::<u16>`: the 16-bit field in slot `slot`
/// of the data section, zero if the section is too short to hold it.
#[verifier::external_body]
pub(crate) fn struct_u16(s: &StructReader<'_>, slot: usize) -> (r: u16)
    requires
        slot < 0x1_0000,
    ensures
        r == field(struct_data(*s), slot as int, 2),
{
    s.get_data_field::<u16>(slot)
}

/// `StructReader::get_data_field::<u32>`: the 32-bit field in slot `slot`
/// of the data section, zero if the section is too short to hold it.
#[verifier::external_body]
pub(crate) fn struct_u32(s: &StructReader<'_>, slot: usize) -> (r: u32)
    requires
        slot < 0x1_0000,
    ensures
        r == field(struct_data(*s), slot as int, 4),
{
    s.get_data_field::<u32>(slot)
}

/// `StructReader::get_data_field::<u64>`: the 64-bit field in slot `slot`
/// of the data section, zero if the section is too short to hold it.
#[verifier::external_body]
pub(crate) fn struct_u64(s: &StructReader<'_>, slot: usize) -> (r: u64)
    requires
        slot < 0x1_0000,
    ensures
        r == field(struct_data(*s), slot as int, 8),
{
    s.get_data_field::<u64>(slot)
}

/// `StructReader::get_pointer_field`: the pointer in slot `index` of the
/// pointer section, a null pointer if the section has no such slot. Nothing
/// is claimed of where it leads.
#[verifier::external_body]
pub(crate) fn struct_pointer<'a>(s: &StructReader<'a>, index: usize) -> (r: PointerReader<'a>) {
    s.get_pointer_field(index)
}

/// `PointerReader::get_struct`: follows the pointer to a struct. Fails where
/// the pointer is out of bounds or leads to something else.
#[verifier::external_body]
pub(crate) fn pointer_struct<'a>(p: PointerReader<'a>) -> (r: Result<
    StructReader<'a>,
    capnp::Error,
>) {
    p.get_struct(None)
}

/// `PointerReader::get_list` for a list of structs. Fails where the pointer
/// is out of bounds or leads to something else.
#[verifier::external_body]
pub(crate) fn pointer_struct_list<'a>(p: PointerReader<'a>) -> (r: Result<
    ListReader<'a>,
    capnp::Error,
>) {
    p.get_list(ElementSize::InlineComposite, None)
}

/// `primitive_list::Reader::<u64>`: follows the pointer to a list of 64-bit
/// words and hands the words out in order. Fails where the pointer is out of
/// bounds or leads to something else.
#[verifier::external_body]
pub(crate) fn pointer_u64_list(p: PointerReader<'_>) -> (r: Result<Vec<u64>, capnp::Error>) {
    let list: capnp::primitive_list::Reader<u64> = capnp::traits::FromPointerReader::get_from_pointer(
        &p,
        None,
    )?;
    Ok(list.iter().collect())
}

/// `ListReader::len`: the number of elements.
#[verifier::external_body]
pub(crate) fn list_len(l: &ListReader<'_>) -> (r: u32)
    ensures
        r == list_items(*l).len(),
{
    l.len()
}

/// `ListReader::get_struct_element`: the element at `index`, read as a
/// struct. The outside function does not check `index`.
#[verifier::external_body]
pub(crate) fn list_struct<'a>(l: &ListReader<'a>, index: u32) -> (r: StructReader<'a>)
    requires
        index < list_items(*l).len(),
    ensures
        struct_data(r) == list_items(*l)[index as int],
{
    l.get_struct_element(index)
}

/// `serialize_packed::read_message` on the bytes from `start` on, with a
/// traversal limit of `limit` words. Returns the message's segments, ready
/// to be read within that limit, and how many bytes are left after the
/// message. A message takes at least one byte, and the same bytes always
/// frame the same way.
///
/// A message that announces more than `limit` words is refused unread.
/// For one that is not, the outside function makes room for all the words
/// it announces before it reads them: up to `limit` words are asked of the
/// allocator.
#[verifier::external_body]
pub(crate) fn read_packed(bytes: &[u8], start: usize, limit: u64) -> (r: Result<
    (ReaderArenaImpl<OwnedSegments>, usize),
    capnp::Error,
>)
    requires
        start <= bytes.len(),
    ensures
        match r {
            Ok((_, rest)) => rest < bytes.len() - start && packed_len(
                bytes@.skip(start as int),
                limit,
            ) == Some((bytes.len() - start - rest) as nat),
            Err(_) => packed_len(bytes@.skip(start as int), limit) is None,
        },
{
    let mut options = capnp::message::ReaderOptions::new();
    options.traversal_limit_in_words(limit);
    let mut rest: &[u8] = &bytes[start..];
    let message = capnp::serialize_packed::read_message(&mut rest, options)?;
    Ok((ReaderArenaImpl::new(message.into_segments(), options), rest.len()))
}

/// `PointerReader::get_root` on the first segment: the root pointer of a
/// message. Fails where the message has no room for one.
#[verifier::external_body]
pub(crate) fn message_root<'a>(arena: &'a ReaderArenaImpl<OwnedSegments>) -> (r: Result<
    PointerReader<'a>,
    capnp::Error,
>) {
    let (start, _words) = arena.get_segment(0)?;
    PointerReader::get_root(arena, 0, start, capnp::message::DEFAULT_READER_OPTIONS.nesting_limit)
}

/// `flate2::read::GzDecoder` read to its end: the inflated first member of
/// a gzip stream. Fails where the stream is not gzip or is cut short.
#[verifier::external_body]
pub(crate) fn inflate(bytes: &[u8]) -> (r: Result<Vec<u8>, std::io::Error>)
    ensures
        match r {
            Ok(out) => inflated(bytes@) == Some(out@),
            Err(_) => inflated(bytes@) is None,
        },
{
    let mut out = Vec::new();
    flate2::read::GzDecoder::new(bytes).read_to_end(&mut out)?;
    Ok(out)
}

} // verus!
