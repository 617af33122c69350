use kafka_wire::{ParseError, api_version, describe_topic};

fn api_versions_request(version: i16, correlation: u32) -> Vec<u8> {
    let mut out = Vec::new();
    out.extend_from_slice(&20u32.to_be_bytes()); // message size
    out.extend_from_slice(&18i16.to_be_bytes()); // api key
    out.extend_from_slice(&version.to_be_bytes());
    out.extend_from_slice(&correlation.to_be_bytes());
    out
}

fn dtp_request(topics: &[&str], correlation: u32) -> Vec<u8> {
    let mut out = Vec::new();
    out.extend_from_slice(&0u32.to_be_bytes()); // message size (not reinspected)
    out.extend_from_slice(&75u16.to_be_bytes()); // api key
    out.extend_from_slice(&0u16.to_be_bytes()); // api version
    out.extend_from_slice(&correlation.to_be_bytes());
    let client_id = b"test-client";
    out.extend_from_slice(&(client_id.len() as u16).to_be_bytes());
    out.extend_from_slice(client_id);
    out.push(0); // tag buffer
    out.push(topics.len() as u8 + 1);
    for t in topics {
        out.push(t.len() as u8 + 1);
        out.extend_from_slice(t.as_bytes());
        out.push(0); // per-topic tag buffer
    }
    out
}

/// The fixed supported-versions table as it stands on the wire.
fn api_key_table_bytes() -> Vec<u8> {
    let mut out = Vec::new();
    out.push(3); // compact array length: two entries plus one
    out.extend_from_slice(&18i16.to_be_bytes());
    out.extend_from_slice(&0i16.to_be_bytes());
    out.extend_from_slice(&4i16.to_be_bytes());
    out.push(0);
    out.extend_from_slice(&75i16.to_be_bytes());
    out.extend_from_slice(&0i16.to_be_bytes());
    out.extend_from_slice(&0i16.to_be_bytes());
    out.push(0);
    out
}

const TOPIC_ID: [u8; 16] = [1, 2, 3, 4, 5, 6, 7, 8, 9, 10, 11, 12, 13, 14, 15, 16];

fn encode_varint(v: i64) -> Vec<u8> {
    let mut u = ((v as u64) << 1) ^ ((v >> 63) as u64);
    let mut out = Vec::new();
    loop {
        if u < 128 {
            out.push(u as u8);
            return out;
        }
        out.push(128 + (u % 128) as u8);
        u /= 128;
    }
}

fn record(value: &[u8]) -> Vec<u8> {
    let mut out = Vec::new();
    out.extend_from_slice(&encode_varint(value.len() as i64 + 6));
    out.push(0);
    out.push(0);
    out.push(0);
    out.extend_from_slice(&encode_varint(-1));
    out.extend_from_slice(&encode_varint(value.len() as i64));
    out.extend_from_slice(value);
    out.push(0);
    out
}

fn batch(records: &[Vec<u8>]) -> Vec<u8> {
    let mut out = Vec::new();
    out.extend_from_slice(&0i64.to_be_bytes());
    out.extend_from_slice(&0i32.to_be_bytes());
    out.extend_from_slice(&0i32.to_be_bytes());
    out.push(2);
    out.extend_from_slice(&0i32.to_be_bytes());
    out.extend_from_slice(&0u16.to_be_bytes());
    out.extend_from_slice(&0i32.to_be_bytes());
    out.extend_from_slice(&0i64.to_be_bytes());
    out.extend_from_slice(&0i64.to_be_bytes());
    out.extend_from_slice(&(-1i64).to_be_bytes());
    out.extend_from_slice(&(-1i16).to_be_bytes());
    out.extend_from_slice(&(-1i32).to_be_bytes());
    out.extend_from_slice(&(records.len() as u32).to_be_bytes());
    for r in records {
        out.extend_from_slice(r);
    }
    out
}

fn topic_value(name: &[u8], topic_id: [u8; 16]) -> Vec<u8> {
    let mut out = vec![1, 2, 0];
    out.push(name.len() as u8 + 1);
    out.extend_from_slice(name);
    out.extend_from_slice(&topic_id);
    out.push(0);
    out
}

fn partition_value(partition_id: i32, topic_id: [u8; 16], replicas: &[i32]) -> Vec<u8> {
    let mut out = vec![1, 3, 0];
    out.extend_from_slice(&partition_id.to_be_bytes());
    out.extend_from_slice(&topic_id);
    out.push(replicas.len() as u8 + 1);
    for r in replicas {
        out.extend_from_slice(&r.to_be_bytes());
    }
    out.push(replicas.len() as u8 + 1);
    for r in replicas {
        out.extend_from_slice(&r.to_be_bytes());
    }
    out.push(1);
    out.push(1);
    out.extend_from_slice(&7i32.to_be_bytes()); // leader id
    out.extend_from_slice(&3i32.to_be_bytes()); // leader epoch
    out.extend_from_slice(&1i32.to_be_bytes()); // partition epoch
    out.push(1);
    out.push(0);
    out
}

/// The expected description of one topic, as it stands on the wire.
fn expected_topic_description(
    name: &str,
    error_code: i16,
    topic_id: [u8; 16],
    partitions: &[Vec<u8>],
) -> Vec<u8> {
    let mut out = Vec::new();
    out.extend_from_slice(&error_code.to_be_bytes());
    out.push(name.len() as u8 + 1);
    out.extend_from_slice(name.as_bytes());
    out.extend_from_slice(&topic_id);
    out.push(0); // is_internal
    out.push(partitions.len() as u8 + 1);
    for p in partitions {
        out.extend_from_slice(p);
    }
    out.extend_from_slice(&0u32.to_be_bytes()); // authorized operations
    out.push(0); // tag buffer
    out
}

fn expected_response(correlation: u32, descriptions: &[Vec<u8>]) -> Vec<u8> {
    let mut header = Vec::new();
    header.extend_from_slice(&correlation.to_be_bytes());
    header.push(0);
    let mut body = Vec::new();
    body.extend_from_slice(&0u32.to_be_bytes()); // throttle time
    body.push(descriptions.len() as u8 + 1);
    for d in descriptions {
        body.extend_from_slice(d);
    }
    body.push(0xFF); // next cursor
    body.push(0); // tag buffer
    let mut out = Vec::new();
    out.extend_from_slice(&((header.len() + body.len()) as u32).to_be_bytes());
    out.extend_from_slice(&header);
    out.extend_from_slice(&body);
    out
}

#[test]
fn test_api_versions_v4_is_supported() {
    let response = api_version::handle_request(&api_versions_request(4, 7));
    let mut expected = Vec::new();
    expected.extend_from_slice(&26u32.to_be_bytes());
    expected.extend_from_slice(&7u32.to_be_bytes());
    expected.extend_from_slice(&0i16.to_be_bytes()); // error code
    expected.extend_from_slice(&api_key_table_bytes());
    expected.extend_from_slice(&0u32.to_be_bytes()); // throttle time
    expected.push(0); // tag buffer
    assert_eq!(expected, response);
    assert_eq!(30, response.len());
}

#[test]
fn test_api_versions_other_versions_are_rejected() {
    for version in [0i16, 3, 5, -1] {
        let response = api_version::handle_request(&api_versions_request(version, 0xDEAD_BEEF));
        let mut expected = Vec::new();
        expected.extend_from_slice(&26u32.to_be_bytes());
        expected.extend_from_slice(&0xDEAD_BEEFu32.to_be_bytes());
        expected.extend_from_slice(&35i16.to_be_bytes()); // unsupported version
        expected.extend_from_slice(&api_key_table_bytes());
        expected.extend_from_slice(&0u32.to_be_bytes());
        expected.push(0);
        assert_eq!(expected, response, "version {}", version);
    }
}

#[test]
fn test_describe_unknown_topic() {
    let request = dtp_request(&["foo"], 9);
    let response = describe_topic::handle_request(&request, &[]).unwrap();
    let expected = expected_response(
        9,
        &[expected_topic_description("foo", 3, [0; 16], &[])],
    );
    assert_eq!(expected, response);
    // the next-cursor byte is always 0xFF, just before the final tag buffer
    assert_eq!(0xFF, response[response.len() - 2]);
}

#[test]
fn test_describe_topic_without_partitions() {
    let log = batch(&[record(&topic_value(b"foo", TOPIC_ID))]);
    let request = dtp_request(&["foo"], 1);
    let response = describe_topic::handle_request(&request, &log).unwrap();
    // the partition array is empty: its compact length byte is 1
    let expected = expected_response(
        1,
        &[expected_topic_description("foo", 0, TOPIC_ID, &[])],
    );
    assert_eq!(expected, response);
}

#[test]
fn test_describe_topic_with_partitions() {
    let log = batch(&[
        record(&topic_value(b"foo", TOPIC_ID)),
        record(&partition_value(0, TOPIC_ID, &[5, 6])),
        record(&partition_value(1, TOPIC_ID, &[6])),
    ]);
    let request = dtp_request(&["foo"], 42);
    let response = describe_topic::handle_request(&request, &log).unwrap();

    let mut part0 = Vec::new();
    part0.extend_from_slice(&0i16.to_be_bytes()); // error code
    part0.extend_from_slice(&0i32.to_be_bytes()); // partition id
    part0.extend_from_slice(&7i32.to_be_bytes()); // leader id
    part0.extend_from_slice(&3i32.to_be_bytes()); // leader epoch
    part0.push(3); // replicas: two entries
    part0.extend_from_slice(&5i32.to_be_bytes());
    part0.extend_from_slice(&6i32.to_be_bytes());
    part0.push(3); // in-sync replicas
    part0.extend_from_slice(&5i32.to_be_bytes());
    part0.extend_from_slice(&6i32.to_be_bytes());
    part0.push(1); // eligible leaders: empty
    part0.push(1); // last-known ELR: empty
    part0.push(1); // offline replicas: empty
    part0.push(0); // tag buffer

    let mut part1 = Vec::new();
    part1.extend_from_slice(&0i16.to_be_bytes());
    part1.extend_from_slice(&1i32.to_be_bytes());
    part1.extend_from_slice(&7i32.to_be_bytes());
    part1.extend_from_slice(&3i32.to_be_bytes());
    part1.push(2);
    part1.extend_from_slice(&6i32.to_be_bytes());
    part1.push(2);
    part1.extend_from_slice(&6i32.to_be_bytes());
    part1.push(1);
    part1.push(1);
    part1.push(1);
    part1.push(0);

    let expected = expected_response(
        42,
        &[expected_topic_description("foo", 0, TOPIC_ID, &[part0, part1])],
    );
    assert_eq!(expected, response);
}

#[test]
fn test_describe_keeps_request_order() {
    let request = dtp_request(&["zzz", "aaa"], 5);
    let response = describe_topic::handle_request(&request, &[]).unwrap();
    let expected = expected_response(
        5,
        &[
            expected_topic_description("zzz", 3, [0; 16], &[]),
            expected_topic_description("aaa", 3, [0; 16], &[]),
        ],
    );
    assert_eq!(expected, response);
}

#[test]
fn test_describe_no_topics() {
    let request = dtp_request(&[], 0);
    let response = describe_topic::handle_request(&request, &[]).unwrap();
    let expected = expected_response(0, &[]);
    assert_eq!(expected, response);
}

#[test]
fn test_describe_lossy_name_wraps_count_byte() {
    // a requested name of 100 invalid bytes decodes to 100 replacement
    // characters, which re-encode to 300 bytes: the one-byte compact count
    // wraps to (300 + 1) mod 256
    let mut request = Vec::new();
    request.extend_from_slice(&0u32.to_be_bytes());
    request.extend_from_slice(&75u16.to_be_bytes());
    request.extend_from_slice(&0u16.to_be_bytes());
    request.extend_from_slice(&9u32.to_be_bytes());
    request.extend_from_slice(&0u16.to_be_bytes()); // empty client id
    request.push(0); // tag buffer
    request.push(2); // one topic
    request.push(101); // name: 100 bytes
    request.extend_from_slice(&[0xFFu8; 100]);
    request.push(0); // per-topic tag buffer

    let response = describe_topic::handle_request(&request, &[]).unwrap();

    let name = "\u{FFFD}".repeat(100);
    let name_bytes = name.as_bytes();
    assert_eq!(300, name_bytes.len());
    let mut description = Vec::new();
    description.extend_from_slice(&3i16.to_be_bytes());
    description.push(((name_bytes.len() + 1) % 256) as u8);
    description.extend_from_slice(name_bytes);
    description.extend_from_slice(&[0u8; 16]);
    description.push(0);
    description.push(1);
    description.extend_from_slice(&0u32.to_be_bytes());
    description.push(0);
    let expected = expected_response(9, &[description]);
    assert_eq!(expected, response);
}

#[test]
fn test_describe_truncated_request_fails() {
    let request = dtp_request(&["foo"], 9);
    let result = describe_topic::handle_request(&request[..request.len() - 2], &[]);
    assert_eq!(Err(ParseError::TruncatedInput), result.map(|_| ()));
}

#[test]
fn test_describe_bad_log_fails() {
    let request = dtp_request(&["foo"], 9);
    let result = describe_topic::handle_request(&request, &[0x00, 0x01, 0x02]);
    assert_eq!(Err(ParseError::TruncatedInput), result.map(|_| ()));
}
