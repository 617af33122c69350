//! A verified front end for two request types of a Kafka-style broker
//! protocol: capability negotiation (ApiVersions) and topic description
//! (DescribeTopicPartitions).
//!
//! The core of the crate is binary decoding and encoding: a cluster-metadata
//! log decoder that turns a raw byte buffer into typed records through
//! length-prefixed, variable-width, tagged-field structures (including a
//! signed zig-zag varint codec), and a protocol codec that builds exact-byte
//! response frames. Every decoder is specified against a spec-level parser
//! over `Seq<u8>`, and every encoder against a spec-level byte sequence, so
//! the contracts pin the wire format bit for bit.
//!
//! Reading the request from a socket and the metadata log from disk is left
//! to the surrounding program; the library works on byte buffers only.

use vstd::prelude::*;

pub mod api_version;
pub mod cluster_metadata;
pub mod cursor;
pub mod describe_topic;
pub mod varint;
pub mod wire;

verus! {

/// Failure of a binary decoder.
///
/// Malformed or truncated input is unrecoverable: a decode aborts at the
/// first failure and returns one of these, never a partial result.
/// Protocol-level conditions (unsupported API version, unknown topic) are
/// not errors of this kind; they are reported in-band in the response.
#[derive(Clone, Copy, Debug, PartialEq, Eq, Structural)]
pub enum ParseError {
    /// The buffer ended before a fixed- or variable-width field was fully read.
    TruncatedInput,
    /// A varint continuation chain exceeds the width of the integer domain.
    MalformedVarint,
    /// A record value carries a record-type discriminant outside the known set.
    UnknownRecordType,
}

} // verus!
