//! Decoding and encoding of Diagnostic Log and Trace (DLT) messages.
//!
//! The crate turns raw bytes into structured, typed messages, with optional
//! filtering, resynchronisation on the storage header pattern, a statistics
//! pass over the headers only, and descriptor models for non-verbose
//! messages.
//!
//! * [`dlt`], [`header`], [`argument`] and [`message`] hold the data model
//!   and its encoders; [`wire`] and [`text`] the numbers and the text of the
//!   wire format.
//! * [`parse`] and [`verbose`] decode; [`filtering`] decides which messages
//!   are dropped; [`read`] cuts a source into messages; [`statistics`] and
//!   [`statistics_common`] count them.
//! * [`xml`], [`fibex_reader`], [`fibex`] and [`dlf`] load descriptor models
//!   and filter definitions; [`fibex_notes`] names what a load passes over.
//! * [`inverse`], [`truncation`] and [`resync`] prove what holds of encoder
//!   and decoder together.
pub mod argument;
pub mod dlf;
pub mod dlt;
pub mod fibex;
pub mod fibex_notes;
pub mod fibex_reader;
pub mod filtering;
pub mod header;
pub mod inverse;
pub mod message;
pub mod parse;
pub mod read;
pub mod resync;
pub mod service_id;
pub mod statistics;
pub mod statistics_common;
pub mod text;
pub mod truncation;
pub mod verbose;
pub mod wire;
pub mod xml;
