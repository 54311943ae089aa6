//! The form of an input, told by the extension of its name.

use crate::error::TraceError;
use crate::wire::{inflate, inflated};
use vstd::prelude::*;
use vstd::string::StringSliceAdditionalSpecFns;

verus! {

/// The byte `.`.
pub const DOT: u8 = 0x2e;

/// The byte `/`.
pub const SLASH: u8 = 0x2f;

/// How the messages of an input are stored.
#[derive(Clone, Copy, Debug, PartialEq, Eq, Structural)]
pub enum InputKind {
    /// The packed messages as they are: extension `bin`.
    Raw,
    /// The packed messages as one gzip stream: extension `gz`.
    Gzip,
}

/// Whether the name that `path` ends in has the extension `bin`: it ends in
/// `.bin`, and something other than a `/` stands before the dot.
pub open spec fn ends_in_bin(path: Seq<u8>) -> bool {
    let n = path.len() as int;
    &&& n >= 5
    &&& path[n - 5] != SLASH
    &&& path[n - 4] == DOT
    &&& path[n - 3] == 0x62
    &&& path[n - 2] == 0x69
    &&& path[n - 1] == 0x6e
}

/// Whether the name that `path` ends in has the extension `gz`: it ends in
/// `.gz`, and something other than a `/` stands before the dot.
pub open spec fn ends_in_gz(path: Seq<u8>) -> bool {
    let n = path.len() as int;
    &&& n >= 4
    &&& path[n - 4] != SLASH
    &&& path[n - 3] == DOT
    &&& path[n - 2] == 0x67
    &&& path[n - 1] == 0x7a
}

impl InputKind {
    /// The kind of the input named by the bytes `path`. Any extension but
    /// `bin` and `gz`, and no extension at all, is a configuration error.
    pub open spec fn of(path: Seq<u8>) -> Result<InputKind, TraceError> {
        if ends_in_bin(path) {
            Ok(InputKind::Raw)
        } else if ends_in_gz(path) {
            Ok(InputKind::Gzip)
        } else {
            Err(TraceError::Configuration)
        }
    }

    /// Tells the kind of an input from its name alone. Nothing is opened or
    /// read for it.
    pub fn from_path(path: &str) -> (r: Result<InputKind, TraceError>)
        ensures
            r == InputKind::of(path.spec_bytes()),
    {
        let bytes = path.as_bytes();
        let n = bytes.len();
        if n >= 5 && bytes[n - 5] != SLASH && bytes[n - 4] == DOT && bytes[n - 3] == 0x62
            && bytes[n - 2] == 0x69 && bytes[n - 1] == 0x6e {
            Ok(InputKind::Raw)
        } else if is_gz_name(path) {
            Ok(InputKind::Gzip)
        } else {
            Err(TraceError::Configuration)
        }
    }
}

/// Whether a directory entry is a trace to aggregate: only names with the
/// extension `gz` are.
pub fn is_gz_name(name: &str) -> (b: bool)
    ensures
        b == ends_in_gz(name.spec_bytes()),
{
    let bytes = name.as_bytes();
    let n = bytes.len();
    n >= 4 && bytes[n - 4] != SLASH && bytes[n - 3] == DOT && bytes[n - 2] == 0x67 && bytes[n - 1]
        == 0x7a
}

/// What `contents` hold under `kind`, where they can be read: raw contents
/// are the messages themselves, gzip contents are what they inflate to.
pub open spec fn messages_of(kind: InputKind, contents: Seq<u8>) -> Option<Seq<u8>> {
    match kind {
        InputKind::Raw => Some(contents),
        InputKind::Gzip => inflated(contents),
    }
}

/// The bytes of the messages of the input named `path` with the contents
/// `contents`: the name decides the form, and a name with an extension
/// other than `bin` or `gz` is refused whatever the contents are.
pub fn trace_bytes(path: &str, contents: Vec<u8>) -> (r: Result<Vec<u8>, TraceError>)
    ensures
        match InputKind::of(path.spec_bytes()) {
            Err(e) => r == Err::<Vec<u8>, TraceError>(e),
            Ok(kind) => match messages_of(kind, contents@) {
                Some(out) => r matches Ok(bytes) && bytes@ == out,
                None => r == Err::<Vec<u8>, TraceError>(TraceError::Io),
            },
        },
{
    match InputKind::from_path(path) {
        Err(e) => Err(e),
        Ok(InputKind::Raw) => Ok(contents),
        Ok(InputKind::Gzip) => match inflate(contents.as_slice()) {
            Ok(bytes) => Ok(bytes),
            Err(_) => Err(TraceError::Io),
        },
    }
}

} // verus!
