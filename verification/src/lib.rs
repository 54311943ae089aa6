//! Decoding of SynchroTrace event streams and the memory-access statistics
//! derived from them.
//!
//! A trace is a sequence of packed messages; each message holds a list of
//! events under one of two schemas. The modules, leaves first:
//!
//! - [`error`]: what can go wrong.
//! - [`event`]: the event model shared by both schemas.
//! - [`layout`]: where the schemas keep their fields, and how wire numbers
//!   become event kinds.
//! - [`wire`]: the calls into `capnp` and `flate2`, each with the contract
//!   that the rest of the crate relies on.
//! - [`fields`]: reading the payloads that both schemas share.
//! - [`uncompressed`], [`compressed`]: one adapter per schema.
//! - [`decoder`]: framing of a byte stream into messages, and of a message
//!   into events.
//! - [`input`]: choice of input form by file extension.
//! - [`frequency`]: per-address access counts for reads and writes.
//! - [`rank`], [`stats`]: ranking and the integer metrics.
//! - [`metrics`]: a whole corpus to its report.

pub mod error;
pub mod event;
pub mod layout;
pub mod wire;
pub mod fields;
pub mod uncompressed;
pub mod compressed;
pub mod decoder;
pub mod input;
pub mod frequency;
pub mod rank;
pub mod stats;
pub mod metrics;
