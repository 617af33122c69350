//! The cluster-metadata log decoder and its in-memory index.
//!
//! A log is a run of record batches, back to back, until the buffer ends.
//! Each batch carries a fixed 61-byte envelope and a declared number of
//! records; each record carries varint-prefixed key and value spans, and a
//! value payload is dispatched on a one-byte record-type discriminant to one
//! of three typed parsers (feature level, topic, partition).
//!
//! Every decoder is specified against a spec-level parser over the raw
//! bytes, so a successful decode returns exactly the model the bytes
//! describe, and a failed one returns exactly the error the spec assigns.
//! The index offers the two lookups the protocol needs: topic name to topic
//! id, and topic id to the partition records that reference it, both in
//! storage order.

use crate::ParseError;
use crate::cursor::{
    Cursor, spec_read_bytes, spec_read_i16, spec_read_i32, spec_read_i64, spec_read_i8,
    spec_read_u16, spec_read_u32, spec_read_u8,
};
use crate::varint::spec_read_varint;
use crate::wire::{
    bytes_eq, copy_vec, spec_read_compact_i32_array, spec_read_compact_string,
    spec_read_compact_u32_array, spec_read_tagged_fields,
};
use vstd::prelude::*;

verus! {

// ------------------------------------------------------------------
// The record-type discriminants of the metadata log.
// ------------------------------------------------------------------

pub const RECORD_TYPE_TOPIC: u8 = 2;

pub const RECORD_TYPE_PARTITION: u8 = 3;

pub const RECORD_TYPE_FEATURE_LEVEL: u8 = 12;

// ------------------------------------------------------------------
// Spec-level models of the decoded structures.
// ------------------------------------------------------------------

#[verifier::ext_equal]
pub struct SpecFeatureLevelRecord {
    pub version: u8,
    pub name: Seq<char>,
    pub feature_level: i16,
    pub tagged_fields: Seq<u8>,
}

#[verifier::ext_equal]
pub struct SpecTopicRecord {
    pub version: u8,
    pub name: Seq<char>,
    pub topic_id: Seq<u8>,
    pub tagged_fields: Seq<u8>,
}

#[verifier::ext_equal]
pub struct SpecPartitionRecord {
    pub version: u8,
    pub partition_id: i32,
    pub topic_id: Seq<u8>,
    pub replicas: Seq<i32>,
    pub insync_replicas: Seq<i32>,
    pub leader_id: i32,
    pub leader_epoch: i32,
    pub partition_epoch: i32,
    pub directories: Seq<u32>,
    pub tagged_fields: Seq<u8>,
}

#[verifier::ext_equal]
pub enum SpecRecordValue {
    FeatureLevel(SpecFeatureLevelRecord),
    Topic(SpecTopicRecord),
    Partition(SpecPartitionRecord),
}

#[verifier::ext_equal]
pub struct SpecRecord {
    pub length: i64,
    pub attributes: u8,
    pub timestamp_delta: i8,
    pub offset_delta: i8,
    pub key: Option<Seq<u8>>,
    pub value: Option<SpecRecordValue>,
    pub header_array_count: u8,
}

#[verifier::ext_equal]
pub struct SpecRecordBatch {
    pub base_offset: i64,
    pub batch_length: i32,
    pub partition_leader_epoch: i32,
    pub magic_byte: u8,
    pub crc: i32,
    pub attributes: u16,
    pub last_offset_delta: i32,
    pub base_timestamp: i64,
    pub max_timestamp: i64,
    pub producer_id: i64,
    pub producer_epoch: i16,
    pub base_sequence: i32,
    pub records_length: u32,
    pub records: Seq<SpecRecord>,
}

// ------------------------------------------------------------------
// The decoded structures.
// ------------------------------------------------------------------

/// A feature-level record: a named feature and its level.
pub struct FeatureLevelRecord {
    pub version: u8,
    pub name: String,
    pub feature_level: i16,
    pub tagged_fields: Vec<u8>,
}

/// A topic record: the name and the 16-byte id other records reference.
pub struct TopicRecord {
    pub version: u8,
    pub name: String,
    pub topic_id: Vec<u8>,
    pub tagged_fields: Vec<u8>,
}

/// A partition record: one partition of a topic, with its replica sets and
/// leadership data. The removing- and adding-replica sets are consumed by
/// the decoder but not surfaced.
pub struct PartitionRecord {
    pub version: u8,
    pub partition_id: i32,
    pub topic_id: Vec<u8>,
    pub replicas: Vec<i32>,
    pub insync_replicas: Vec<i32>,
    pub leader_id: i32,
    pub leader_epoch: i32,
    pub partition_epoch: i32,
    pub directories: Vec<u32>,
    pub tagged_fields: Vec<u8>,
}

/// A record's value payload, selected by the record-type discriminant.
pub enum RecordValue {
    FeatureLevel(FeatureLevelRecord),
    Topic(TopicRecord),
    Partition(PartitionRecord),
}

/// One record of a batch. A negative varint length leaves the key or the
/// value absent.
pub struct Record {
    pub length: i64,
    pub attributes: u8,
    pub timestamp_delta: i8,
    pub offset_delta: i8,
    pub key: Option<Vec<u8>>,
    pub value: Option<RecordValue>,
    pub header_array_count: u8,
}

/// One record batch: the fixed envelope and its decoded records. The
/// declared record count always matches the number of records decoded. The
/// CRC is read but not verified.
pub struct RecordBatch {
    pub base_offset: i64,
    pub batch_length: i32,
    pub partition_leader_epoch: i32,
    pub magic_byte: u8,
    pub crc: i32,
    pub attributes: u16,
    pub last_offset_delta: i32,
    pub base_timestamp: i64,
    pub max_timestamp: i64,
    pub producer_id: i64,
    pub producer_epoch: i16,
    pub base_sequence: i32,
    pub records_length: u32,
    pub records: Vec<Record>,
}

/// The decoded metadata log: every batch of the buffer, in order.
pub struct ClusterMetadata {
    pub record_batches: Vec<RecordBatch>,
}

// ------------------------------------------------------------------
// Views.
// ------------------------------------------------------------------

impl View for FeatureLevelRecord {
    type V = SpecFeatureLevelRecord;

    open spec fn view(&self) -> SpecFeatureLevelRecord {
        SpecFeatureLevelRecord {
            version: self.version,
            name: self.name@,
            feature_level: self.feature_level,
            tagged_fields: self.tagged_fields@,
        }
    }
}

impl DeepView for FeatureLevelRecord {
    type V = SpecFeatureLevelRecord;

    open spec fn deep_view(&self) -> SpecFeatureLevelRecord {
        self.view()
    }
}

impl View for TopicRecord {
    type V = SpecTopicRecord;

    open spec fn view(&self) -> SpecTopicRecord {
        SpecTopicRecord {
            version: self.version,
            name: self.name@,
            topic_id: self.topic_id@,
            tagged_fields: self.tagged_fields@,
        }
    }
}

impl DeepView for TopicRecord {
    type V = SpecTopicRecord;

    open spec fn deep_view(&self) -> SpecTopicRecord {
        self.view()
    }
}

impl View for PartitionRecord {
    type V = SpecPartitionRecord;

    open spec fn view(&self) -> SpecPartitionRecord {
        SpecPartitionRecord {
            version: self.version,
            partition_id: self.partition_id,
            topic_id: self.topic_id@,
            replicas: self.replicas@,
            insync_replicas: self.insync_replicas@,
            leader_id: self.leader_id,
            leader_epoch: self.leader_epoch,
            partition_epoch: self.partition_epoch,
            directories: self.directories@,
            tagged_fields: self.tagged_fields@,
        }
    }
}

impl DeepView for PartitionRecord {
    type V = SpecPartitionRecord;

    open spec fn deep_view(&self) -> SpecPartitionRecord {
        self.view()
    }
}

impl View for RecordValue {
    type V = SpecRecordValue;

    open spec fn view(&self) -> SpecRecordValue {
        match self {
            RecordValue::FeatureLevel(r) => SpecRecordValue::FeatureLevel(r@),
            RecordValue::Topic(r) => SpecRecordValue::Topic(r@),
            RecordValue::Partition(r) => SpecRecordValue::Partition(r@),
        }
    }
}

impl DeepView for RecordValue {
    type V = SpecRecordValue;

    open spec fn deep_view(&self) -> SpecRecordValue {
        self.view()
    }
}

impl View for Record {
    type V = SpecRecord;

    open spec fn view(&self) -> SpecRecord {
        SpecRecord {
            length: self.length,
            attributes: self.attributes,
            timestamp_delta: self.timestamp_delta,
            offset_delta: self.offset_delta,
            key: self.key.deep_view(),
            value: match self.value {
                Some(v) => Some(v@),
                None => None,
            },
            header_array_count: self.header_array_count,
        }
    }
}

impl DeepView for Record {
    type V = SpecRecord;

    open spec fn deep_view(&self) -> SpecRecord {
        self.view()
    }
}

impl View for RecordBatch {
    type V = SpecRecordBatch;

    open spec fn view(&self) -> SpecRecordBatch {
        SpecRecordBatch {
            base_offset: self.base_offset,
            batch_length: self.batch_length,
            partition_leader_epoch: self.partition_leader_epoch,
            magic_byte: self.magic_byte,
            crc: self.crc,
            attributes: self.attributes,
            last_offset_delta: self.last_offset_delta,
            base_timestamp: self.base_timestamp,
            max_timestamp: self.max_timestamp,
            producer_id: self.producer_id,
            producer_epoch: self.producer_epoch,
            base_sequence: self.base_sequence,
            records_length: self.records_length,
            records: self.records.deep_view(),
        }
    }
}

impl DeepView for RecordBatch {
    type V = SpecRecordBatch;

    open spec fn deep_view(&self) -> SpecRecordBatch {
        self.view()
    }
}

impl View for ClusterMetadata {
    type V = Seq<SpecRecordBatch>;

    open spec fn view(&self) -> Seq<SpecRecordBatch> {
        self.record_batches.deep_view()
    }
}

// ------------------------------------------------------------------
// Spec-level parsers.
// ------------------------------------------------------------------

pub open spec fn spec_parse_feature_level(b: Seq<u8>, p: int) -> Result<
    (SpecFeatureLevelRecord, int),
    ParseError,
> {
    match spec_read_u8(b, p) {
        Ok((version, p1)) => match spec_read_compact_string(b, p1) {
            Ok((name, p2)) => match spec_read_i16(b, p2) {
                Ok((feature_level, p3)) => match spec_read_tagged_fields(b, p3) {
                    Ok((tagged_fields, p4)) => Ok(
                        (
                            SpecFeatureLevelRecord { version, name, feature_level, tagged_fields },
                            p4,
                        ),
                    ),
                    Err(e) => Err(e),
                },
                Err(e) => Err(e),
            },
            Err(e) => Err(e),
        },
        Err(e) => Err(e),
    }
}

pub open spec fn spec_parse_topic(b: Seq<u8>, p: int) -> Result<(SpecTopicRecord, int), ParseError> {
    match spec_read_u8(b, p) {
        Ok((version, p1)) => match spec_read_compact_string(b, p1) {
            Ok((name, p2)) => match spec_read_bytes(b, p2, 16) {
                Ok((topic_id, p3)) => match spec_read_tagged_fields(b, p3) {
                    Ok((tagged_fields, p4)) => Ok(
                        (SpecTopicRecord { version, name, topic_id, tagged_fields }, p4),
                    ),
                    Err(e) => Err(e),
                },
                Err(e) => Err(e),
            },
            Err(e) => Err(e),
        },
        Err(e) => Err(e),
    }
}

pub open spec fn spec_parse_partition(b: Seq<u8>, p: int) -> Result<
    (SpecPartitionRecord, int),
    ParseError,
> {
    match spec_read_u8(b, p) {
        Ok((version, p1)) => match spec_read_i32(b, p1) {
            Ok((partition_id, p2)) => match spec_read_bytes(b, p2, 16) {
                Ok((topic_id, p3)) => match spec_read_compact_i32_array(b, p3) {
                    Ok((replicas, p4)) => match spec_read_compact_i32_array(b, p4) {
                        Ok((insync_replicas, p5)) => match spec_read_compact_i32_array(b, p5) {
                            Ok((_removing, p6)) => match spec_read_compact_i32_array(b, p6) {
                                Ok((_adding, p7)) => match spec_read_i32(b, p7) {
                                    Ok((leader_id, p8)) => match spec_read_i32(b, p8) {
                                        Ok((leader_epoch, p9)) => match spec_read_i32(b, p9) {
                                            Ok((partition_epoch, p10)) => match
                                                spec_read_compact_u32_array(b, p10) {
                                                Ok((directories, p11)) => match
                                                    spec_read_tagged_fields(b, p11) {
                                                    Ok((tagged_fields, p12)) => Ok(
                                                        (
                                                            SpecPartitionRecord {
                                                                version,
                                                                partition_id,
                                                                topic_id,
                                                                replicas,
                                                                insync_replicas,
                                                                leader_id,
                                                                leader_epoch,
                                                                partition_epoch,
                                                                directories,
                                                                tagged_fields,
                                                            },
                                                            p12,
                                                        ),
                                                    ),
                                                    Err(e) => Err(e),
                                                },
                                                Err(e) => Err(e),
                                            },
                                            Err(e) => Err(e),
                                        },
                                        Err(e) => Err(e),
                                    },
                                    Err(e) => Err(e),
                                },
                                Err(e) => Err(e),
                            },
                            Err(e) => Err(e),
                        },
                        Err(e) => Err(e),
                    },
                    Err(e) => Err(e),
                },
                Err(e) => Err(e),
            },
            Err(e) => Err(e),
        },
        Err(e) => Err(e),
    }
}

/// A value payload: a frame-version byte, the record-type discriminant, and
/// the typed fields. A discriminant outside the known set is fatal. Bytes
/// past the typed fields are left uninterpreted.
pub open spec fn spec_parse_record_value(v: Seq<u8>) -> Result<SpecRecordValue, ParseError> {
    match spec_read_u8(v, 0) {
        Ok((_frame_version, p1)) => match spec_read_u8(v, p1) {
            Ok((record_type, p2)) => if record_type == RECORD_TYPE_FEATURE_LEVEL {
                match spec_parse_feature_level(v, p2) {
                    Ok((r, _)) => Ok(SpecRecordValue::FeatureLevel(r)),
                    Err(e) => Err(e),
                }
            } else if record_type == RECORD_TYPE_TOPIC {
                match spec_parse_topic(v, p2) {
                    Ok((r, _)) => Ok(SpecRecordValue::Topic(r)),
                    Err(e) => Err(e),
                }
            } else if record_type == RECORD_TYPE_PARTITION {
                match spec_parse_partition(v, p2) {
                    Ok((r, _)) => Ok(SpecRecordValue::Partition(r)),
                    Err(e) => Err(e),
                }
            } else {
                Err(ParseError::UnknownRecordType)
            },
            Err(e) => Err(e),
        },
        Err(e) => Err(e),
    }
}

pub open spec fn spec_parse_record(b: Seq<u8>, p: int) -> Result<(SpecRecord, int), ParseError> {
    match spec_read_varint(b, p) {
        Ok((length, p1)) => match spec_read_u8(b, p1) {
            Ok((attributes, p2)) => match spec_read_i8(b, p2) {
                Ok((timestamp_delta, p3)) => match spec_read_i8(b, p3) {
                    Ok((offset_delta, p4)) => match spec_read_varint(b, p4) {
                        Ok((key_length, p5)) => {
                            let key_step: Result<(Option<Seq<u8>>, int), ParseError> = if key_length
                                >= 0 {
                                match spec_read_bytes(b, p5, key_length as int) {
                                    Ok((key, p6)) => Ok((Some(key), p6)),
                                    Err(e) => Err(e),
                                }
                            } else {
                                Ok((None, p5))
                            };
                            match key_step {
                                Ok((key, p6)) => match spec_read_varint(b, p6) {
                                    Ok((value_length, p7)) => {
                                        let value_step: Result<
                                            (Option<SpecRecordValue>, int),
                                            ParseError,
                                        > = if value_length >= 0 {
                                            match spec_read_bytes(b, p7, value_length as int) {
                                                Ok((raw, p8)) => match spec_parse_record_value(
                                                    raw,
                                                ) {
                                                    Ok(rv) => Ok((Some(rv), p8)),
                                                    Err(e) => Err(e),
                                                },
                                                Err(e) => Err(e),
                                            }
                                        } else {
                                            Ok((None, p7))
                                        };
                                        match value_step {
                                            Ok((value, p8)) => match spec_read_u8(b, p8) {
                                                Ok((header_array_count, p9)) => Ok(
                                                    (
                                                        SpecRecord {
                                                            length,
                                                            attributes,
                                                            timestamp_delta,
                                                            offset_delta,
                                                            key,
                                                            value,
                                                            header_array_count,
                                                        },
                                                        p9,
                                                    ),
                                                ),
                                                Err(e) => Err(e),
                                            },
                                            Err(e) => Err(e),
                                        }
                                    },
                                    Err(e) => Err(e),
                                },
                                Err(e) => Err(e),
                            }
                        },
                        Err(e) => Err(e),
                    },
                    Err(e) => Err(e),
                },
                Err(e) => Err(e),
            },
            Err(e) => Err(e),
        },
        Err(e) => Err(e),
    }
}

pub open spec fn spec_parse_records(b: Seq<u8>, p: int, n: int) -> Result<
    (Seq<SpecRecord>, int),
    ParseError,
>
    decreases n,
{
    if n <= 0 {
        Ok((Seq::empty(), p))
    } else {
        match spec_parse_record(b, p) {
            Ok((r, q)) => match spec_parse_records(b, q, n - 1) {
                Ok((rest, e)) => Ok((seq![r] + rest, e)),
                Err(e) => Err(e),
            },
            Err(e) => Err(e),
        }
    }
}

pub open spec fn spec_parse_record_batch(b: Seq<u8>, p: int) -> Result<
    (SpecRecordBatch, int),
    ParseError,
> {
    match spec_read_i64(b, p) {
        Ok((base_offset, p1)) => match spec_read_i32(b, p1) {
            Ok((batch_length, p2)) => match spec_read_i32(b, p2) {
                Ok((partition_leader_epoch, p3)) => match spec_read_u8(b, p3) {
                    Ok((magic_byte, p4)) => match spec_read_i32(b, p4) {
                        Ok((crc, p5)) => match spec_read_u16(b, p5) {
                            Ok((attributes, p6)) => match spec_read_i32(b, p6) {
                                Ok((last_offset_delta, p7)) => match spec_read_i64(b, p7) {
                                    Ok((base_timestamp, p8)) => match spec_read_i64(b, p8) {
                                        Ok((max_timestamp, p9)) => match spec_read_i64(b, p9) {
                                            Ok((producer_id, p10)) => match spec_read_i16(b, p10) {
                                                Ok((producer_epoch, p11)) => match spec_read_i32(
                                                    b,
                                                    p11,
                                                ) {
                                                    Ok((base_sequence, p12)) => match
                                                        spec_read_u32(b, p12) {
                                                        Ok((records_length, p13)) => match
                                                            spec_parse_records(
                                                            b,
                                                            p13,
                                                            records_length as int,
                                                        ) {
                                                            Ok((records, p14)) => Ok(
                                                                (
                                                                    SpecRecordBatch {
                                                                        base_offset,
                                                                        batch_length,
                                                                        partition_leader_epoch,
                                                                        magic_byte,
                                                                        crc,
                                                                        attributes,
                                                                        last_offset_delta,
                                                                        base_timestamp,
                                                                        max_timestamp,
                                                                        producer_id,
                                                                        producer_epoch,
                                                                        base_sequence,
                                                                        records_length,
                                                                        records,
                                                                    },
                                                                    p14,
                                                                ),
                                                            ),
                                                            Err(e) => Err(e),
                                                        },
                                                        Err(e) => Err(e),
                                                    },
                                                    Err(e) => Err(e),
                                                },
                                                Err(e) => Err(e),
                                            },
                                            Err(e) => Err(e),
                                        },
                                        Err(e) => Err(e),
                                    },
                                    Err(e) => Err(e),
                                },
                                Err(e) => Err(e),
                            },
                            Err(e) => Err(e),
                        },
                        Err(e) => Err(e),
                    },
                    Err(e) => Err(e),
                },
                Err(e) => Err(e),
            },
            Err(e) => Err(e),
        },
        Err(e) => Err(e),
    }
}

/// Batches, back to back, until the buffer is exhausted.
pub open spec fn spec_parse_batches(b: Seq<u8>, p: int) -> Result<
    (Seq<SpecRecordBatch>, int),
    ParseError,
>
    decreases b.len() - p,
{
    if p >= b.len() {
        Ok((Seq::empty(), p))
    } else {
        match spec_parse_record_batch(b, p) {
            Ok((batch, q)) => if p < q <= b.len() {
                match spec_parse_batches(b, q) {
                    Ok((rest, e)) => Ok((seq![batch] + rest, e)),
                    Err(e) => Err(e),
                }
            } else {
                // A batch always advances the position within bounds; this
                // branch is never reached (see `lemma_parse_record_batch_bounds`).
                Err(ParseError::TruncatedInput)
            },
            Err(e) => Err(e),
        }
    }
}

// ------------------------------------------------------------------
// Spec-level lookups.
// ------------------------------------------------------------------

/// All records of a batch sequence, flattened in batch/record order.
pub open spec fn batch_records(batches: Seq<SpecRecordBatch>) -> Seq<SpecRecord>
    decreases batches.len(),
{
    if batches.len() == 0 {
        Seq::empty()
    } else {
        batch_records(batches.drop_last()) + batches.last().records
    }
}

/// The topic id of the first topic record whose name equals `name`
/// exactly, or `None` when no record matches.
pub open spec fn spec_first_topic_id(records: Seq<SpecRecord>, name: Seq<char>) -> Option<Seq<u8>>
    decreases records.len(),
{
    if records.len() == 0 {
        None
    } else {
        match records[0].value {
            Some(SpecRecordValue::Topic(t)) => if t.name == name {
                Some(t.topic_id)
            } else {
                spec_first_topic_id(records.skip(1), name)
            },
            _ => spec_first_topic_id(records.skip(1), name),
        }
    }
}

/// Every partition record whose topic id equals `id`, in encounter order.
pub open spec fn spec_partition_records(records: Seq<SpecRecord>, id: Seq<u8>) -> Seq<
    SpecPartitionRecord,
>
    decreases records.len(),
{
    if records.len() == 0 {
        Seq::empty()
    } else {
        let rest = spec_partition_records(records.drop_last(), id);
        match records.last().value {
            Some(SpecRecordValue::Partition(p)) => if p.topic_id == id {
                rest.push(p)
            } else {
                rest
            },
            _ => rest,
        }
    }
}

pub open spec fn spec_topic_id(meta: Seq<SpecRecordBatch>, name: Seq<char>) -> Option<Seq<u8>> {
    spec_first_topic_id(batch_records(meta), name)
}

pub open spec fn spec_partitions(meta: Seq<SpecRecordBatch>, id: Seq<u8>) -> Seq<
    SpecPartitionRecord,
> {
    spec_partition_records(batch_records(meta), id)
}

/// The flattening can also be unfolded from the front.
proof fn lemma_batch_records_first(batches: Seq<SpecRecordBatch>)
    requires
        batches.len() > 0,
    ensures
        batch_records(batches) == batches[0].records + batch_records(batches.skip(1)),
    decreases batches.len(),
{
    if batches.len() == 1 {
        assert(batches.drop_last() =~= Seq::<SpecRecordBatch>::empty());
        assert(batches.skip(1) =~= Seq::<SpecRecordBatch>::empty());
        assert(batch_records(batches) =~= batches[0].records + batch_records(batches.skip(1)));
    } else {
        lemma_batch_records_first(batches.drop_last());
        assert(batches.drop_last()[0] == batches[0]);
        assert(batches.drop_last().skip(1) =~= batches.skip(1).drop_last());
        assert(batches.skip(1).last() == batches.last());
        assert(batch_records(batches) == (batches[0].records + batch_records(
            batches.skip(1).drop_last(),
        )) + batches.last().records);
        assert((batches[0].records + batch_records(batches.skip(1).drop_last()))
            + batches.last().records =~= batches[0].records + (batch_records(
            batches.skip(1).drop_last(),
        ) + batches.last().records));
    }
}

// ------------------------------------------------------------------
// Bounds of the spec-level parsers: a successful parse always lands
// strictly past where it started and within the buffer.
// ------------------------------------------------------------------

proof fn lemma_parse_record_bounds(b: Seq<u8>, p: int)
    requires
        0 <= p <= b.len(),
    ensures
        match spec_parse_record(b, p) {
            Ok(v) => p < v.1 <= b.len(),
            Err(_) => true,
        },
{
    crate::varint::lemma_read_varint_bounds(b, p);
    match spec_read_varint(b, p) {
        Ok((_, p1)) => {
            if p1 + 3 <= b.len() {
                let p4 = p1 + 3;
                crate::varint::lemma_read_varint_bounds(b, p4);
                match spec_read_varint(b, p4) {
                    Ok((kl, p5)) => {
                        let p6: int = if kl >= 0 {
                            p5 + kl
                        } else {
                            p5
                        };
                        if p6 <= b.len() {
                            crate::varint::lemma_read_varint_bounds(b, p6);
                        }
                    },
                    Err(_) => {},
                }
            }
        },
        Err(_) => {},
    }
}

proof fn lemma_parse_records_bounds(b: Seq<u8>, p: int, n: int)
    requires
        0 <= p <= b.len(),
    ensures
        match spec_parse_records(b, p, n) {
            Ok(v) => p <= v.1 <= b.len() && v.0.len() == if n >= 0 {
                n
            } else {
                0
            },
            Err(_) => true,
        },
    decreases n,
{
    if n > 0 {
        lemma_parse_record_bounds(b, p);
        match spec_parse_record(b, p) {
            Ok((_, q)) => {
                lemma_parse_records_bounds(b, q, n - 1);
            },
            Err(_) => {},
        }
    }
}

proof fn lemma_parse_record_batch_bounds(b: Seq<u8>, p: int)
    requires
        0 <= p <= b.len(),
    ensures
        match spec_parse_record_batch(b, p) {
            Ok(v) => p < v.1 <= b.len(),
            Err(_) => true,
        },
{
    if p + 61 <= b.len() {
        // The fixed envelope is 61 bytes; the declared record count is the
        // last four of them, and the records start just past it.
        match spec_read_u32(b, p + 57) {
            Ok((rl, _)) => {
                lemma_parse_records_bounds(b, p + 61, rl as int);
            },
            Err(_) => {},
        }
    }
}

// ------------------------------------------------------------------
// Executable parsers.
// ------------------------------------------------------------------

impl FeatureLevelRecord {
    /// Decode the typed fields of a feature-level record, the cursor
    /// standing just past the frame-version and record-type bytes.
    pub fn parse(cursor: &mut Cursor<'_>) -> (r: Result<FeatureLevelRecord, ParseError>)
        requires
            old(cursor).wf(),
        ensures
            final(cursor).wf(),
            final(cursor).data() == old(cursor).data(),
            match spec_parse_feature_level(old(cursor).data(), old(cursor).position()) {
                Ok(v) => r is Ok && r->Ok_0@ == v.0 && final(cursor).position() == v.1,
                Err(e) => r == Err::<FeatureLevelRecord, ParseError>(e),
            },
    {
        let version = match cursor.read_u8() {
            Ok(v) => v,
            Err(e) => { return Err(e) },
        };
        let name = match cursor.read_compact_string() {
            Ok(v) => v,
            Err(e) => { return Err(e) },
        };
        let feature_level = match cursor.read_i16() {
            Ok(v) => v,
            Err(e) => { return Err(e) },
        };
        let tagged_fields = match cursor.read_tagged_fields() {
            Ok(v) => v,
            Err(e) => { return Err(e) },
        };
        Ok(FeatureLevelRecord { version, name, feature_level, tagged_fields })
    }
}

impl TopicRecord {
    /// Decode the typed fields of a topic record, the cursor standing just
    /// past the frame-version and record-type bytes.
    pub fn parse(cursor: &mut Cursor<'_>) -> (r: Result<TopicRecord, ParseError>)
        requires
            old(cursor).wf(),
        ensures
            final(cursor).wf(),
            final(cursor).data() == old(cursor).data(),
            match spec_parse_topic(old(cursor).data(), old(cursor).position()) {
                Ok(v) => r is Ok && r->Ok_0@ == v.0 && final(cursor).position() == v.1,
                Err(e) => r == Err::<TopicRecord, ParseError>(e),
            },
    {
        let version = match cursor.read_u8() {
            Ok(v) => v,
            Err(e) => { return Err(e) },
        };
        let name = match cursor.read_compact_string() {
            Ok(v) => v,
            Err(e) => { return Err(e) },
        };
        let topic_id = match cursor.read_bytes(16) {
            Ok(v) => v,
            Err(e) => { return Err(e) },
        };
        let tagged_fields = match cursor.read_tagged_fields() {
            Ok(v) => v,
            Err(e) => { return Err(e) },
        };
        Ok(TopicRecord { version, name, topic_id, tagged_fields })
    }
}

impl PartitionRecord {
    /// Decode the typed fields of a partition record, the cursor standing
    /// just past the frame-version and record-type bytes. The removing- and
    /// adding-replica arrays are consumed to keep the cursor aligned but
    /// not surfaced.
    pub fn parse(cursor: &mut Cursor<'_>) -> (r: Result<PartitionRecord, ParseError>)
        requires
            old(cursor).wf(),
        ensures
            final(cursor).wf(),
            final(cursor).data() == old(cursor).data(),
            match spec_parse_partition(old(cursor).data(), old(cursor).position()) {
                Ok(v) => r is Ok && r->Ok_0@ == v.0 && final(cursor).position() == v.1,
                Err(e) => r == Err::<PartitionRecord, ParseError>(e),
            },
    {
        let version = match cursor.read_u8() {
            Ok(v) => v,
            Err(e) => { return Err(e) },
        };
        let partition_id = match cursor.read_i32() {
            Ok(v) => v,
            Err(e) => { return Err(e) },
        };
        let topic_id = match cursor.read_bytes(16) {
            Ok(v) => v,
            Err(e) => { return Err(e) },
        };
        let replicas = match cursor.read_compact_i32_array() {
            Ok(v) => v,
            Err(e) => { return Err(e) },
        };
        let insync_replicas = match cursor.read_compact_i32_array() {
            Ok(v) => v,
            Err(e) => { return Err(e) },
        };
        let _removing_replicas = match cursor.read_compact_i32_array() {
            Ok(v) => v,
            Err(e) => { return Err(e) },
        };
        let _adding_replicas = match cursor.read_compact_i32_array() {
            Ok(v) => v,
            Err(e) => { return Err(e) },
        };
        let leader_id = match cursor.read_i32() {
            Ok(v) => v,
            Err(e) => { return Err(e) },
        };
        let leader_epoch = match cursor.read_i32() {
            Ok(v) => v,
            Err(e) => { return Err(e) },
        };
        let partition_epoch = match cursor.read_i32() {
            Ok(v) => v,
            Err(e) => { return Err(e) },
        };
        let directories = match cursor.read_compact_u32_array() {
            Ok(v) => v,
            Err(e) => { return Err(e) },
        };
        let tagged_fields = match cursor.read_tagged_fields() {
            Ok(v) => v,
            Err(e) => { return Err(e) },
        };
        Ok(
            PartitionRecord {
                version,
                partition_id,
                topic_id,
                replicas,
                insync_replicas,
                leader_id,
                leader_epoch,
                partition_epoch,
                directories,
                tagged_fields,
            },
        )
    }
}

impl RecordValue {
    /// Decode a record's value payload: frame version, record-type
    /// discriminant, and the typed fields it selects. An unknown
    /// discriminant is fatal for the whole decode, since cursor alignment
    /// past an unknown payload shape cannot be guaranteed.
    pub fn parse(record_raw: &[u8]) -> (r: Result<RecordValue, ParseError>)
        ensures
            match spec_parse_record_value(record_raw@) {
                Ok(v) => r is Ok && r->Ok_0@ == v,
                Err(e) => r == Err::<RecordValue, ParseError>(e),
            },
    {
        let mut cursor = Cursor::new(record_raw);
        let _frame_version = match cursor.read_u8() {
            Ok(v) => v,
            Err(e) => { return Err(e) },
        };
        let record_type = match cursor.read_u8() {
            Ok(v) => v,
            Err(e) => { return Err(e) },
        };
        if record_type == RECORD_TYPE_FEATURE_LEVEL {
            match FeatureLevelRecord::parse(&mut cursor) {
                Ok(r) => Ok(RecordValue::FeatureLevel(r)),
                Err(e) => Err(e),
            }
        } else if record_type == RECORD_TYPE_TOPIC {
            match TopicRecord::parse(&mut cursor) {
                Ok(r) => Ok(RecordValue::Topic(r)),
                Err(e) => Err(e),
            }
        } else if record_type == RECORD_TYPE_PARTITION {
            match PartitionRecord::parse(&mut cursor) {
                Ok(r) => Ok(RecordValue::Partition(r)),
                Err(e) => Err(e),
            }
        } else {
            Err(ParseError::UnknownRecordType)
        }
    }
}

impl Record {
    /// Decode one record: varint length, attribute and delta bytes, the
    /// optional key span, the optional value span with its typed payload,
    /// and the header-array count.
    #[verifier::rlimit(100)]
    pub fn parse(cursor: &mut Cursor<'_>) -> (r: Result<Record, ParseError>)
        requires
            old(cursor).wf(),
        ensures
            final(cursor).wf(),
            final(cursor).data() == old(cursor).data(),
            match spec_parse_record(old(cursor).data(), old(cursor).position()) {
                Ok(v) => r is Ok && r->Ok_0@ == v.0 && final(cursor).position() == v.1,
                Err(e) => r == Err::<Record, ParseError>(e),
            },
    {
        let length = match cursor.read_signed_varint() {
            Ok(v) => v,
            Err(e) => { return Err(e) },
        };
        let attributes = match cursor.read_u8() {
            Ok(v) => v,
            Err(e) => { return Err(e) },
        };
        let timestamp_delta = match cursor.read_i8() {
            Ok(v) => v,
            Err(e) => { return Err(e) },
        };
        let offset_delta = match cursor.read_i8() {
            Ok(v) => v,
            Err(e) => { return Err(e) },
        };
        let key_length = match cursor.read_signed_varint() {
            Ok(v) => v,
            Err(e) => { return Err(e) },
        };
        let key: Option<Vec<u8>> = if key_length >= 0 {
            if (key_length as u64) > (cursor.remaining() as u64) {
                return Err(ParseError::TruncatedInput);
            }
            match cursor.read_bytes(key_length as usize) {
                Ok(k) => Some(k),
                Err(e) => { return Err(e) },
            }
        } else {
            None
        };
        let value_length = match cursor.read_signed_varint() {
            Ok(v) => v,
            Err(e) => { return Err(e) },
        };
        let value: Option<RecordValue> = if value_length >= 0 {
            if (value_length as u64) > (cursor.remaining() as u64) {
                return Err(ParseError::TruncatedInput);
            }
            let raw = match cursor.read_bytes(value_length as usize) {
                Ok(v) => v,
                Err(e) => { return Err(e) },
            };
            match RecordValue::parse(raw.as_slice()) {
                Ok(v) => Some(v),
                Err(e) => { return Err(e) },
            }
        } else {
            None
        };
        let header_array_count = match cursor.read_u8() {
            Ok(v) => v,
            Err(e) => { return Err(e) },
        };
        Ok(
            Record {
                length,
                attributes,
                timestamp_delta,
                offset_delta,
                key,
                value,
                header_array_count,
            },
        )
    }
}

/// Decode exactly `n` records in sequence.
fn parse_records(cursor: &mut Cursor<'_>, n: usize) -> (r: Result<Vec<Record>, ParseError>)
    requires
        old(cursor).wf(),
    ensures
        final(cursor).wf(),
        final(cursor).data() == old(cursor).data(),
        match spec_parse_records(old(cursor).data(), old(cursor).position(), n as int) {
            Ok(v) => r is Ok && r->Ok_0.deep_view() == v.0 && final(cursor).position() == v.1,
            Err(e) => r == Err::<Vec<Record>, ParseError>(e),
        },
{
    let ghost b = cursor.data();
    let ghost p0 = cursor.position();
    let mut out: Vec<Record> = Vec::new();
    let mut i: usize = 0;
    proof {
        match spec_parse_records(b, p0, n as int) {
            Ok(v) => {
                assert(out.deep_view() + v.0 =~= v.0);
            },
            Err(_) => {},
        }
    }
    while i < n
        invariant
            cursor.wf(),
            cursor.data() == b,
            b == old(cursor).data(),
            p0 == old(cursor).position(),
            i <= n,
            spec_parse_records(b, p0, n as int) == (match spec_parse_records(
                b,
                cursor.position(),
                n - i,
            ) {
                Ok(v) => Ok::<(Seq<SpecRecord>, int), ParseError>((out.deep_view() + v.0, v.1)),
                Err(e) => Err::<(Seq<SpecRecord>, int), ParseError>(e),
            }),
        decreases n - i,
    {
        let ghost out_pre = out.deep_view();
        match Record::parse(cursor) {
            Ok(rec) => {
                out.push(rec);
                i = i + 1;
                proof {
                    assert(out.deep_view() =~= out_pre + seq![out@[out@.len() - 1]@]);
                    match spec_parse_records(b, cursor.position(), n - i) {
                        Ok(w) => {
                            assert(out_pre + (seq![out@[out@.len() - 1]@] + w.0) =~= out.deep_view()
                                + w.0);
                        },
                        Err(_) => {},
                    }
                }
            },
            Err(e) => {
                return Err(e);
            },
        }
    }
    proof {
        assert(out.deep_view() + Seq::<SpecRecord>::empty() =~= out.deep_view());
    }
    Ok(out)
}

impl RecordBatch {
    /// Decode one record batch: the fixed 61-byte envelope, then exactly
    /// the declared number of records, leaving the cursor at the start of
    /// the next batch.
    pub fn parse(cursor: &mut Cursor<'_>) -> (r: Result<RecordBatch, ParseError>)
        requires
            old(cursor).wf(),
        ensures
            final(cursor).wf(),
            final(cursor).data() == old(cursor).data(),
            match spec_parse_record_batch(old(cursor).data(), old(cursor).position()) {
                Ok(v) => r is Ok && r->Ok_0@ == v.0 && final(cursor).position() == v.1,
                Err(e) => r == Err::<RecordBatch, ParseError>(e),
            },
    {
        let base_offset = match cursor.read_i64() {
            Ok(v) => v,
            Err(e) => { return Err(e) },
        };
        let batch_length = match cursor.read_i32() {
            Ok(v) => v,
            Err(e) => { return Err(e) },
        };
        let partition_leader_epoch = match cursor.read_i32() {
            Ok(v) => v,
            Err(e) => { return Err(e) },
        };
        let magic_byte = match cursor.read_u8() {
            Ok(v) => v,
            Err(e) => { return Err(e) },
        };
        let crc = match cursor.read_i32() {
            Ok(v) => v,
            Err(e) => { return Err(e) },
        };
        let attributes = match cursor.read_u16() {
            Ok(v) => v,
            Err(e) => { return Err(e) },
        };
        let last_offset_delta = match cursor.read_i32() {
            Ok(v) => v,
            Err(e) => { return Err(e) },
        };
        let base_timestamp = match cursor.read_i64() {
            Ok(v) => v,
            Err(e) => { return Err(e) },
        };
        let max_timestamp = match cursor.read_i64() {
            Ok(v) => v,
            Err(e) => { return Err(e) },
        };
        let producer_id = match cursor.read_i64() {
            Ok(v) => v,
            Err(e) => { return Err(e) },
        };
        let producer_epoch = match cursor.read_i16() {
            Ok(v) => v,
            Err(e) => { return Err(e) },
        };
        let base_sequence = match cursor.read_i32() {
            Ok(v) => v,
            Err(e) => { return Err(e) },
        };
        let records_length = match cursor.read_u32() {
            Ok(v) => v,
            Err(e) => { return Err(e) },
        };
        let records = match parse_records(cursor, records_length as usize) {
            Ok(v) => v,
            Err(e) => { return Err(e) },
        };
        Ok(
            RecordBatch {
                base_offset,
                batch_length,
                partition_leader_epoch,
                magic_byte,
                crc,
                attributes,
                last_offset_delta,
                base_timestamp,
                max_timestamp,
                producer_id,
                producer_epoch,
                base_sequence,
                records_length,
                records,
            },
        )
    }
}

impl ClusterMetadata {
    /// Decode an entire metadata log: record batches back to back until
    /// the buffer is exhausted. A batch that cannot be fully decoded fails
    /// the whole parse; no partial result is returned.
    pub fn parse(input: &[u8]) -> (r: Result<ClusterMetadata, ParseError>)
        ensures
            match spec_parse_batches(input@, 0) {
                Ok(v) => r is Ok && r->Ok_0@ == v.0,
                Err(e) => r == Err::<ClusterMetadata, ParseError>(e),
            },
    {
        let mut cursor = Cursor::new(input);
        let mut record_batches: Vec<RecordBatch> = Vec::new();
        proof {
            match spec_parse_batches(input@, 0) {
                Ok(v) => {
                    assert(record_batches.deep_view() + v.0 =~= v.0);
                },
                Err(_) => {},
            }
        }
        while cursor.has(1)
            invariant
                cursor.wf(),
                cursor.data() == input@,
                spec_parse_batches(input@, 0) == (match spec_parse_batches(
                    input@,
                    cursor.position(),
                ) {
                    Ok(v) => Ok::<(Seq<SpecRecordBatch>, int), ParseError>(
                        (record_batches.deep_view() + v.0, v.1),
                    ),
                    Err(e) => Err::<(Seq<SpecRecordBatch>, int), ParseError>(e),
                }),
            decreases input@.len() - cursor.position(),
        {
            proof {
                lemma_parse_record_batch_bounds(input@, cursor.position());
            }
            let ghost batches_pre = record_batches.deep_view();
            match RecordBatch::parse(&mut cursor) {
                Ok(batch) => {
                    record_batches.push(batch);
                    proof {
                        assert(record_batches.deep_view() =~= batches_pre + seq![
                            record_batches@[record_batches@.len() - 1]@,
                        ]);
                        match spec_parse_batches(input@, cursor.position()) {
                            Ok(v) => {
                                assert(batches_pre + (seq![
                                    record_batches@[record_batches@.len() - 1]@,
                                ] + v.0) =~= record_batches.deep_view() + v.0);
                            },
                            Err(_) => {},
                        }
                    }
                },
                Err(e) => {
                    return Err(e);
                },
            }
        }
        proof {
            assert(record_batches.deep_view() + Seq::<SpecRecordBatch>::empty()
                =~= record_batches.deep_view());
        }
        Ok(ClusterMetadata { record_batches })
    }
}

// ------------------------------------------------------------------
// Lookups.
// ------------------------------------------------------------------

impl PartitionRecord {
    /// An owned copy, field for field.
    pub fn duplicate(&self) -> (r: PartitionRecord)
        ensures
            r@ == self@,
    {
        let r = PartitionRecord {
            version: self.version,
            partition_id: self.partition_id,
            topic_id: copy_vec(&self.topic_id),
            replicas: copy_vec(&self.replicas),
            insync_replicas: copy_vec(&self.insync_replicas),
            leader_id: self.leader_id,
            leader_epoch: self.leader_epoch,
            partition_epoch: self.partition_epoch,
            directories: copy_vec(&self.directories),
            tagged_fields: copy_vec(&self.tagged_fields),
        };
        proof {
            assert(r@ =~= self@);
        }
        r
    }
}

impl ClusterMetadata {
    /// The id of the first topic record whose name equals `name` exactly
    /// (case-sensitive), scanning batches and records in storage order;
    /// `None` when no topic record matches.
    pub fn topic_id(&self, name: &String) -> (r: Option<Vec<u8>>)
        ensures
            match spec_topic_id(self@, name@) {
                Some(id) => r is Some && r->0@ == id,
                None => r is None,
            },
    {
        proof {
            assert(self@.skip(0) =~= self@);
        }
        let mut bi: usize = 0;
        while bi < self.record_batches.len()
            invariant
                bi <= self.record_batches@.len(),
                spec_first_topic_id(batch_records(self@), name@) == spec_first_topic_id(
                    batch_records(self@.skip(bi as int)),
                    name@,
                ),
            decreases self.record_batches@.len() - bi,
        {
            proof {
                lemma_batch_records_first(self@.skip(bi as int));
                assert(self@.skip(bi as int)[0] == self@[bi as int]);
                assert(self@.skip(bi as int).skip(1) =~= self@.skip(bi as int + 1));
                assert(self@[bi as int].records.skip(0) =~= self@[bi as int].records);
            }
            let mut ri: usize = 0;
            while ri < self.record_batches[bi].records.len()
                invariant
                    bi < self.record_batches@.len(),
                    ri <= self.record_batches@[bi as int].records@.len(),
                    spec_first_topic_id(batch_records(self@), name@) == spec_first_topic_id(
                        self@[bi as int].records.skip(ri as int) + batch_records(
                            self@.skip(bi as int + 1),
                        ),
                        name@,
                    ),
                decreases self.record_batches@[bi as int].records@.len() - ri,
            {
                let ghost tail = self@[bi as int].records.skip(ri as int) + batch_records(
                    self@.skip(bi as int + 1),
                );
                let rec = &self.record_batches[bi].records[ri];
                proof {
                    assert(tail[0] == rec@);
                }
                if let Some(v) = &rec.value {
                    if let RecordValue::Topic(t) = v {
                        if t.name == *name {
                            return Some(copy_vec(&t.topic_id));
                        }
                    }
                }
                ri = ri + 1;
                proof {
                    assert(tail.skip(1) =~= self@[bi as int].records.skip(ri as int)
                        + batch_records(self@.skip(bi as int + 1)));
                }
            }
            bi = bi + 1;
            proof {
                assert(self@[bi as int - 1].records.skip(
                    self.record_batches@[bi as int - 1].records@.len() as int,
                ) =~= Seq::<SpecRecord>::empty());
                assert(Seq::<SpecRecord>::empty() + batch_records(self@.skip(bi as int))
                    =~= batch_records(self@.skip(bi as int)));
            }
        }
        proof {
            assert(self@.skip(self.record_batches@.len() as int) =~= Seq::<
                SpecRecordBatch,
            >::empty());
        }
        None
    }

    /// Every partition record whose topic id equals `topic_id`, as owned
    /// copies, preserving batch/record encounter order; no renumbering and
    /// no sorting by partition id.
    pub fn partitions(&self, topic_id: &Vec<u8>) -> (r: Vec<PartitionRecord>)
        ensures
            r.deep_view() == spec_partitions(self@, topic_id@),
    {
        let mut out: Vec<PartitionRecord> = Vec::new();
        proof {
            assert(self@.take(0) =~= Seq::<SpecRecordBatch>::empty());
            assert(out.deep_view() =~= spec_partition_records(
                batch_records(self@.take(0)),
                topic_id@,
            ));
        }
        let mut bi: usize = 0;
        while bi < self.record_batches.len()
            invariant
                bi <= self.record_batches@.len(),
                out.deep_view() == spec_partition_records(
                    batch_records(self@.take(bi as int)),
                    topic_id@,
                ),
            decreases self.record_batches@.len() - bi,
        {
            proof {
                assert(self@[bi as int].records.take(0) =~= Seq::<SpecRecord>::empty());
                assert(batch_records(self@.take(bi as int)) + Seq::<SpecRecord>::empty()
                    =~= batch_records(self@.take(bi as int)));
            }
            let mut ri: usize = 0;
            while ri < self.record_batches[bi].records.len()
                invariant
                    bi < self.record_batches@.len(),
                    ri <= self.record_batches@[bi as int].records@.len(),
                    out.deep_view() == spec_partition_records(
                        batch_records(self@.take(bi as int)) + self@[bi as int].records.take(
                            ri as int,
                        ),
                        topic_id@,
                    ),
                decreases self.record_batches@[bi as int].records@.len() - ri,
            {
                let ghost prefix = batch_records(self@.take(bi as int))
                    + self@[bi as int].records.take(ri as int);
                let ghost out_pre = out.deep_view();
                let rec = &self.record_batches[bi].records[ri];
                if let Some(v) = &rec.value {
                    if let RecordValue::Partition(p) = v {
                        if bytes_eq(&p.topic_id, topic_id) {
                            out.push(p.duplicate());
                        }
                    }
                }
                ri = ri + 1;
                proof {
                    let prefix2 = batch_records(self@.take(bi as int))
                        + self@[bi as int].records.take(ri as int);
                    assert(prefix2.drop_last() =~= prefix);
                    assert(prefix2.last() == rec@);
                    if out.deep_view() != out_pre {
                        assert(out.deep_view() =~= out_pre.push(out@[out@.len() - 1]@));
                    }
                }
            }
            bi = bi + 1;
            proof {
                let w = self@.take(bi as int);
                assert(w.drop_last() =~= self@.take(bi as int - 1));
                assert(w.last() == self@[bi as int - 1]);
                assert(self@[bi as int - 1].records.take(
                    self.record_batches@[bi as int - 1].records@.len() as int,
                ) =~= self@[bi as int - 1].records);
            }
        }
        proof {
            assert(self@.take(self.record_batches@.len() as int) =~= self@);
        }
        out
    }
}

} // verus!
