//! The ApiVersions handler: capability negotiation.
//!
//! The response is pinned byte for byte: a 32-bit frame length, the echoed
//! correlation id, an error code (0 when version 4 was requested, 35 —
//! unsupported version — otherwise), and the fixed table of supported API
//! key ranges, each entry followed by an empty tag buffer.

use crate::cursor::{be_u16, i16_from_u16, i16_of_u16};
use crate::wire::{i16_be_bytes, push_bytes, push_i16_be, push_u32_be, push_u8, u32_be_bytes};
use vstd::prelude::*;
use vstd::slice::slice_subrange;

verus! {

pub const API_KEY_API_VERSIONS: i16 = 18;

pub const API_KEY_DESCRIBE_TOPIC_PARTITIONS: i16 = 75;

/// The protocol's error code for an unsupported request version.
pub const ERROR_UNSUPPORTED_VERSION: i16 = 35;

/// The protocol's error code for a topic unknown to the metadata log.
pub const ERROR_UNKNOWN_TOPIC: i16 = 3;

pub open spec fn spec_api_versions_error_code(api_version: i16) -> i16 {
    if api_version != 4 {
        ERROR_UNSUPPORTED_VERSION
    } else {
        0
    }
}

/// One entry of the supported-versions table: api key, minimum and maximum
/// version, and an empty tag buffer.
pub open spec fn spec_api_key_entry(id: i16, min: i16, max: i16) -> Seq<u8> {
    i16_be_bytes(id) + i16_be_bytes(min) + i16_be_bytes(max) + seq![0u8]
}

/// The response body: error code, the compact array of the two supported
/// api keys (18 up to version 4, 75 at version 0), a zero throttle time,
/// and a trailing tag buffer.
pub open spec fn spec_api_versions_body(api_version: i16) -> Seq<u8> {
    i16_be_bytes(spec_api_versions_error_code(api_version)) + seq![3u8] + spec_api_key_entry(
        API_KEY_API_VERSIONS,
        0,
        4,
    ) + spec_api_key_entry(API_KEY_DESCRIBE_TOPIC_PARTITIONS, 0, 0) + u32_be_bytes(0) + seq![0u8]
}

/// The full response frame for a request whose api-version field stands at
/// bytes six and seven and whose correlation id at bytes eight to eleven:
/// a 32-bit total length (always 26), the echoed correlation id, then the
/// body.
pub open spec fn spec_api_versions_response(input: Seq<u8>) -> Seq<u8>
    recommends
        input.len() >= 12,
{
    let api_version = i16_of_u16(be_u16(input.subrange(6, 8)));
    u32_be_bytes(26) + input.subrange(8, 12) + spec_api_versions_body(api_version)
}

/// Append one entry of the supported-versions table.
fn push_api_key_entry(out: &mut Vec<u8>, id: i16, min: i16, max: i16)
    ensures
        final(out)@ == old(out)@ + spec_api_key_entry(id, min, max),
{
    let ghost base = out@;
    push_i16_be(out, id);
    push_i16_be(out, min);
    push_i16_be(out, max);
    push_u8(out, 0);
    proof {
        assert(out@ =~= base + spec_api_key_entry(id, min, max));
    }
}

/// Answer an ApiVersions request. The api-version field is read at its
/// fixed offset, the correlation id is echoed, and the response is exactly
/// the frame `spec_api_versions_response` describes: error code 0 when
/// version 4 was requested, 35 otherwise, and the same two-entry table of
/// supported api keys either way.
pub fn handle_request(input: &[u8]) -> (r: Vec<u8>)
    requires
        input@.len() >= 12,
    ensures
        r@ == spec_api_versions_response(input@),
{
    let hi = input[6];
    let lo = input[7];
    let api_version = i16_from_u16((hi as u16) * 0x100 + (lo as u16));
    proof {
        let s = input@.subrange(6, 8);
        assert(s[0] == hi && s[1] == lo);
    }
    let error_code: i16 = if api_version != 4 {
        ERROR_UNSUPPORTED_VERSION
    } else {
        0
    };
    let correlation_id = slice_subrange(input, 8, 12);
    let mut response: Vec<u8> = Vec::new();
    push_u32_be(&mut response, 26);
    push_bytes(&mut response, correlation_id);
    push_i16_be(&mut response, error_code);
    push_u8(&mut response, 3);
    push_api_key_entry(&mut response, API_KEY_API_VERSIONS, 0, 4);
    push_api_key_entry(&mut response, API_KEY_DESCRIBE_TOPIC_PARTITIONS, 0, 0);
    push_u32_be(&mut response, 0);
    push_u8(&mut response, 0);
    proof {
        assert(response@ =~= spec_api_versions_response(input@));
    }
    response
}

} // verus!
