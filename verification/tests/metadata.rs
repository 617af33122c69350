use kafka_wire::ParseError;
use kafka_wire::cluster_metadata::{ClusterMetadata, RecordValue};

fn encode_varint(v: i64) -> Vec<u8> {
    let mut u = ((v as u64) << 1) ^ ((v >> 63) as u64);
    let mut out = Vec::new();
    loop {
        if u < 128 {
            out.push(u as u8);
            return out;
        }
        out.push(128 + (u % 128) as u8);
        u /= 128;
    }
}

/// A record carrying `value` as its payload, with no key and no headers.
fn record(value: &[u8]) -> Vec<u8> {
    let mut out = Vec::new();
    out.extend_from_slice(&encode_varint(value.len() as i64 + 6));
    out.push(0); // attributes
    out.push(0); // timestamp delta
    out.push(0); // offset delta
    out.extend_from_slice(&encode_varint(-1)); // no key
    out.extend_from_slice(&encode_varint(value.len() as i64));
    out.extend_from_slice(value);
    out.push(0); // header array count
    out
}

/// A batch envelope holding the given already-encoded records.
fn batch(records: &[Vec<u8>]) -> Vec<u8> {
    let mut out = Vec::new();
    out.extend_from_slice(&11i64.to_be_bytes()); // base offset
    out.extend_from_slice(&0i32.to_be_bytes()); // batch length (not validated)
    out.extend_from_slice(&(-1i32).to_be_bytes()); // partition leader epoch
    out.push(2); // magic byte
    out.extend_from_slice(&0x1234_5678i32.to_be_bytes()); // crc (unverified)
    out.extend_from_slice(&0u16.to_be_bytes()); // attributes
    out.extend_from_slice(&0i32.to_be_bytes()); // last offset delta
    out.extend_from_slice(&1000i64.to_be_bytes()); // base timestamp
    out.extend_from_slice(&2000i64.to_be_bytes()); // max timestamp
    out.extend_from_slice(&(-1i64).to_be_bytes()); // producer id
    out.extend_from_slice(&(-1i16).to_be_bytes()); // producer epoch
    out.extend_from_slice(&(-1i32).to_be_bytes()); // base sequence
    out.extend_from_slice(&(records.len() as u32).to_be_bytes());
    for r in records {
        out.extend_from_slice(r);
    }
    out
}

/// A topic-record payload: frame version, type 2, version, compact name,
/// topic id, empty tagged fields.
fn topic_value(name: &[u8], topic_id: [u8; 16]) -> Vec<u8> {
    let mut out = vec![1, 2, 0];
    out.push(name.len() as u8 + 1);
    out.extend_from_slice(name);
    out.extend_from_slice(&topic_id);
    out.push(0);
    out
}

/// A partition-record payload: frame version, type 3, version, partition
/// id, topic id, replica arrays, leadership fields, directories, tagged
/// fields.
fn partition_value(partition_id: i32, topic_id: [u8; 16], replicas: &[i32]) -> Vec<u8> {
    let mut out = vec![1, 3, 0];
    out.extend_from_slice(&partition_id.to_be_bytes());
    out.extend_from_slice(&topic_id);
    out.push(replicas.len() as u8 + 1);
    for r in replicas {
        out.extend_from_slice(&r.to_be_bytes());
    }
    out.push(replicas.len() as u8 + 1); // in-sync replicas: same set
    for r in replicas {
        out.extend_from_slice(&r.to_be_bytes());
    }
    out.push(1); // removing replicas: empty
    out.push(1); // adding replicas: empty
    out.extend_from_slice(&7i32.to_be_bytes()); // leader id
    out.extend_from_slice(&3i32.to_be_bytes()); // leader epoch
    out.extend_from_slice(&1i32.to_be_bytes()); // partition epoch
    out.push(1); // directories: empty
    out.push(0); // tagged fields
    out
}

/// A feature-level payload: frame version, type 12, version, compact name,
/// level, empty tagged fields.
fn feature_level_value(name: &[u8], level: i16) -> Vec<u8> {
    let mut out = vec![1, 12, 0];
    out.push(name.len() as u8 + 1);
    out.extend_from_slice(name);
    out.extend_from_slice(&level.to_be_bytes());
    out.push(0);
    out
}

const TOPIC_ID: [u8; 16] = [1, 2, 3, 4, 5, 6, 7, 8, 9, 10, 11, 12, 13, 14, 15, 16];

#[test]
fn test_empty_log_has_no_batches() {
    let meta = ClusterMetadata::parse(&[]).unwrap();
    assert_eq!(0, meta.record_batches.len());
}

#[test]
fn test_envelope_fields_are_decoded() {
    let log = batch(&[]);
    let meta = ClusterMetadata::parse(&log).unwrap();
    assert_eq!(1, meta.record_batches.len());
    let b = &meta.record_batches[0];
    assert_eq!(11, b.base_offset);
    assert_eq!(-1, b.partition_leader_epoch);
    assert_eq!(2, b.magic_byte);
    assert_eq!(0x1234_5678, b.crc);
    assert_eq!(1000, b.base_timestamp);
    assert_eq!(2000, b.max_timestamp);
    assert_eq!(-1, b.producer_id);
    assert_eq!(-1, b.producer_epoch);
    assert_eq!(-1, b.base_sequence);
    assert_eq!(0, b.records_length);
    assert_eq!(0, b.records.len());
}

#[test]
fn test_topic_id_found_and_not_found() {
    let log = batch(&[record(&topic_value(b"foo", TOPIC_ID))]);
    let meta = ClusterMetadata::parse(&log).unwrap();
    assert_eq!(Some(TOPIC_ID.to_vec()), meta.topic_id(&String::from("foo")));
    assert_eq!(None, meta.topic_id(&String::from("bar")));
}

#[test]
fn test_topic_id_takes_the_first_match() {
    let other_id = [9u8; 16];
    let log = batch(&[
        record(&topic_value(b"dup", TOPIC_ID)),
        record(&topic_value(b"dup", other_id)),
    ]);
    let meta = ClusterMetadata::parse(&log).unwrap();
    assert_eq!(Some(TOPIC_ID.to_vec()), meta.topic_id(&String::from("dup")));
}

#[test]
fn test_topic_name_is_lossily_decoded() {
    // 0xFF is invalid UTF-8, so the stored name is the replacement
    // character; the lookup goes through the same decoding
    let log = batch(&[record(&topic_value(&[0xFF], TOPIC_ID))]);
    let meta = ClusterMetadata::parse(&log).unwrap();
    assert_eq!(Some(TOPIC_ID.to_vec()), meta.topic_id(&String::from("\u{FFFD}")));
    assert_eq!(None, meta.topic_id(&String::from("\u{00FF}")));
}

#[test]
fn test_partitions_empty_for_unreferenced_topic() {
    let log = batch(&[record(&topic_value(b"foo", TOPIC_ID))]);
    let meta = ClusterMetadata::parse(&log).unwrap();
    let id = TOPIC_ID.to_vec();
    assert_eq!(0, meta.partitions(&id).len());
}

#[test]
fn test_partitions_keep_encounter_order() {
    let log = batch(&[
        record(&topic_value(b"foo", TOPIC_ID)),
        record(&partition_value(1, TOPIC_ID, &[5, 6])),
        record(&partition_value(0, TOPIC_ID, &[7])),
        record(&partition_value(4, [8u8; 16], &[9])),
    ]);
    let meta = ClusterMetadata::parse(&log).unwrap();
    let parts = meta.partitions(&TOPIC_ID.to_vec());
    assert_eq!(2, parts.len());
    assert_eq!(1, parts[0].partition_id);
    assert_eq!(vec![5, 6], parts[0].replicas);
    assert_eq!(vec![5, 6], parts[0].insync_replicas);
    assert_eq!(7, parts[0].leader_id);
    assert_eq!(3, parts[0].leader_epoch);
    assert_eq!(0, parts[1].partition_id);
    assert_eq!(vec![7], parts[1].replicas);
}

#[test]
fn test_partitions_scan_crosses_batches() {
    let mut log = batch(&[record(&topic_value(b"foo", TOPIC_ID))]);
    log.extend_from_slice(&batch(&[record(&partition_value(0, TOPIC_ID, &[1]))]));
    let meta = ClusterMetadata::parse(&log).unwrap();
    assert_eq!(2, meta.record_batches.len());
    assert_eq!(1, meta.partitions(&TOPIC_ID.to_vec()).len());
    assert_eq!(Some(TOPIC_ID.to_vec()), meta.topic_id(&String::from("foo")));
}

#[test]
fn test_feature_level_record_is_decoded() {
    let log = batch(&[record(&feature_level_value(b"metadata.version", -1))]);
    let meta = ClusterMetadata::parse(&log).unwrap();
    let rec = &meta.record_batches[0].records[0];
    match rec.value.as_ref().unwrap() {
        RecordValue::FeatureLevel(f) => {
            assert_eq!("metadata.version", f.name);
            assert_eq!(-1, f.feature_level);
        }
        _ => panic!("wrong record value variant"),
    }
}

#[test]
fn test_truncated_batch_fails_with_truncated_input() {
    let log = batch(&[record(&topic_value(b"foo", TOPIC_ID))]);
    // cut the buffer mid-field, at several depths
    for cut in [1, 30, 60, 61, 70, log.len() - 1] {
        let result = ClusterMetadata::parse(&log[..cut]);
        assert!(
            matches!(result, Err(ParseError::TruncatedInput)),
            "cut at {} gave {:?}",
            cut,
            result.err()
        );
    }
}

#[test]
fn test_unknown_record_type_is_fatal() {
    let mut value = topic_value(b"foo", TOPIC_ID);
    value[1] = 9; // an unknown discriminant
    let log = batch(&[record(&value)]);
    let result = ClusterMetadata::parse(&log);
    assert!(matches!(result, Err(ParseError::UnknownRecordType)));
}

#[test]
fn test_record_without_value() {
    // a negative varint value length leaves the value absent
    let mut rec = Vec::new();
    rec.extend_from_slice(&encode_varint(0));
    rec.push(0);
    rec.push(0);
    rec.push(0);
    rec.extend_from_slice(&encode_varint(-1)); // no key
    rec.extend_from_slice(&encode_varint(-1)); // no value
    rec.push(0);
    let log = batch(&[rec]);
    let meta = ClusterMetadata::parse(&log).unwrap();
    let decoded = &meta.record_batches[0].records[0];
    assert!(decoded.key.is_none());
    assert!(decoded.value.is_none());
}

#[test]
fn test_record_key_is_kept() {
    // a record with an explicit key and a topic value
    let value = topic_value(b"foo", TOPIC_ID);
    let mut rec = Vec::new();
    rec.extend_from_slice(&encode_varint(0));
    rec.push(0);
    rec.push(0);
    rec.push(0);
    rec.extend_from_slice(&encode_varint(2));
    rec.extend_from_slice(b"ab");
    rec.extend_from_slice(&encode_varint(value.len() as i64));
    rec.extend_from_slice(&value);
    rec.push(0);
    let log = batch(&[rec]);
    let meta = ClusterMetadata::parse(&log).unwrap();
    let decoded = &meta.record_batches[0].records[0];
    assert_eq!(Some(b"ab".to_vec()), decoded.key);
    assert!(decoded.value.is_some());
}
