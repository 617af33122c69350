//! The DescribeTopicPartitions handler.
//!
//! The request names topics; each is resolved against the decoded metadata
//! log. A topic present in the log is described with error code 0, its
//! topic id, and its partition records in log order; an absent one with
//! error code 3 (unknown topic), a zero topic id, and no partitions.
//! Topics are described in request order; no sorting is performed. The
//! response is pinned byte for byte, down to the `0xFF` next-cursor
//! trailer (no pagination: one page always describes every topic asked
//! for).

use crate::ParseError;
use crate::api_version::ERROR_UNKNOWN_TOPIC;
use crate::cluster_metadata::{
    ClusterMetadata, PartitionRecord, SpecPartitionRecord, SpecRecordBatch, spec_parse_batches,
    spec_partitions, spec_topic_id,
};
use crate::cursor::{Cursor, spec_read_bytes, spec_read_u16, spec_read_u32, spec_read_u8};
use crate::wire::{
    compact_count_byte, compact_i32_array_bytes, compact_len, i16_be_bytes, i32_be_bytes,
    push_bytes, push_compact_count, push_compact_i32_array, push_i16_be, push_i32_be,
    push_u32_be, push_u8, spec_read_compact_string, u32_be_bytes,
};
use vstd::arithmetic::div_mod::lemma_add_mod_noop;
use vstd::prelude::*;
use vstd::utf8::encode_utf8;

verus! {

// ------------------------------------------------------------------
// The result model.
// ------------------------------------------------------------------

#[verifier::ext_equal]
pub struct SpecPartition {
    pub error_code: i16,
    pub partition_id: i32,
    pub leader_id: i32,
    pub leader_epoch: i32,
    pub replicas: Seq<i32>,
    pub insync_replicas: Seq<i32>,
    pub eligible_leader: Seq<i32>,
    pub last_known_elr: Seq<i32>,
    pub offline_replica: Seq<i32>,
    pub tag_buffer: u8,
}

#[verifier::ext_equal]
pub struct SpecTopicDescription {
    pub name: Seq<char>,
    pub error_code: i16,
    pub topic_id: Seq<u8>,
    pub is_internal: bool,
    pub partition_info: Seq<SpecPartition>,
    pub authorized_operations: u32,
}

#[verifier::ext_equal]
pub struct SpecDescribeTopicResult {
    pub correlation_id: u32,
    pub throttle_time: u32,
    pub topic_descriptions: Seq<SpecTopicDescription>,
    pub next_cursor: u8,
}

/// One partition of a topic description. The eligible-leader, last-known
/// ELR and offline-replica arrays are always empty: the source metadata
/// format does not populate them here.
pub struct Partition {
    pub error_code: i16,
    pub partition_id: i32,
    pub leader_id: i32,
    pub leader_epoch: i32,
    pub replicas: Vec<i32>,
    pub insync_replicas: Vec<i32>,
    pub eligible_leader: Vec<i32>,
    pub last_known_elr: Vec<i32>,
    pub offline_replica: Vec<i32>,
    pub tag_buffer: u8,
}

pub struct TopicDescription {
    pub name: String,
    pub error_code: i16,
    pub topic_id: Vec<u8>,
    pub is_internal: bool,
    pub partition_info: Vec<Partition>,
    pub authorized_operations: u32,
}

pub struct DescribeTopicResult {
    pub correlation_id: u32,
    pub throttle_time: u32,
    pub topic_descriptions: Vec<TopicDescription>,
    pub next_cursor: u8,
}

impl View for Partition {
    type V = SpecPartition;

    open spec fn view(&self) -> SpecPartition {
        SpecPartition {
            error_code: self.error_code,
            partition_id: self.partition_id,
            leader_id: self.leader_id,
            leader_epoch: self.leader_epoch,
            replicas: self.replicas@,
            insync_replicas: self.insync_replicas@,
            eligible_leader: self.eligible_leader@,
            last_known_elr: self.last_known_elr@,
            offline_replica: self.offline_replica@,
            tag_buffer: self.tag_buffer,
        }
    }
}

impl DeepView for Partition {
    type V = SpecPartition;

    open spec fn deep_view(&self) -> SpecPartition {
        self.view()
    }
}

impl View for TopicDescription {
    type V = SpecTopicDescription;

    open spec fn view(&self) -> SpecTopicDescription {
        SpecTopicDescription {
            name: self.name@,
            error_code: self.error_code,
            topic_id: self.topic_id@,
            is_internal: self.is_internal,
            partition_info: self.partition_info.deep_view(),
            authorized_operations: self.authorized_operations,
        }
    }
}

impl DeepView for TopicDescription {
    type V = SpecTopicDescription;

    open spec fn deep_view(&self) -> SpecTopicDescription {
        self.view()
    }
}

impl View for DescribeTopicResult {
    type V = SpecDescribeTopicResult;

    open spec fn view(&self) -> SpecDescribeTopicResult {
        SpecDescribeTopicResult {
            correlation_id: self.correlation_id,
            throttle_time: self.throttle_time,
            topic_descriptions: self.topic_descriptions.deep_view(),
            next_cursor: self.next_cursor,
        }
    }
}

// ------------------------------------------------------------------
// Spec-level request decoding.
// ------------------------------------------------------------------

/// The requested topic names: each a compact string followed by its own
/// tag-buffer byte.
pub open spec fn spec_read_topic_names(b: Seq<u8>, p: int, n: int) -> Result<
    (Seq<Seq<char>>, int),
    ParseError,
>
    decreases n,
{
    if n <= 0 {
        Ok((Seq::empty(), p))
    } else {
        match spec_read_compact_string(b, p) {
            Ok((name, q)) => match spec_read_u8(b, q) {
                Ok((_tag, q2)) => match spec_read_topic_names(b, q2, n - 1) {
                    Ok((rest, e)) => Ok((seq![name] + rest, e)),
                    Err(e) => Err(e),
                },
                Err(e) => Err(e),
            },
            Err(e) => Err(e),
        }
    }
}

/// The whole request: fixed header, raw-length client id, a tag buffer,
/// then the compact array of topic names. Yields the correlation id and
/// the names, in request order.
pub open spec fn spec_parse_request(b: Seq<u8>) -> Result<(u32, Seq<Seq<char>>), ParseError> {
    match spec_read_u32(b, 0) {
        Ok((_message_size, p1)) => match spec_read_u16(b, p1) {
            Ok((_api_key, p2)) => match spec_read_u16(b, p2) {
                Ok((_api_version, p3)) => match spec_read_u32(b, p3) {
                    Ok((correlation_id, p4)) => match spec_read_u16(b, p4) {
                        Ok((client_id_len, p5)) => match spec_read_bytes(
                            b,
                            p5,
                            client_id_len as int,
                        ) {
                            Ok((_client_id, p6)) => match spec_read_u8(b, p6) {
                                Ok((_tag, p7)) => match spec_read_u8(b, p7) {
                                    Ok((l, p8)) => match spec_read_topic_names(
                                        b,
                                        p8,
                                        compact_len(l),
                                    ) {
                                        Ok((names, _)) => Ok((correlation_id, names)),
                                        Err(e) => Err(e),
                                    },
                                    Err(e) => Err(e),
                                },
                                Err(e) => Err(e),
                            },
                            Err(e) => Err(e),
                        },
                        Err(e) => Err(e),
                    },
                    Err(e) => Err(e),
                },
                Err(e) => Err(e),
            },
            Err(e) => Err(e),
        },
        Err(e) => Err(e),
    }
}

// ------------------------------------------------------------------
// Spec-level description building.
// ------------------------------------------------------------------

pub open spec fn spec_partition_of_record(p: SpecPartitionRecord) -> SpecPartition {
    SpecPartition {
        error_code: 0,
        partition_id: p.partition_id,
        leader_id: p.leader_id,
        leader_epoch: p.leader_epoch,
        replicas: p.replicas,
        insync_replicas: p.insync_replicas,
        eligible_leader: Seq::empty(),
        last_known_elr: Seq::empty(),
        offline_replica: Seq::empty(),
        tag_buffer: 0,
    }
}

/// How one requested name is described: resolved through the metadata log,
/// or reported unknown with error code 3, a zero topic id and no
/// partitions.
pub open spec fn spec_describe_topic(meta: Seq<SpecRecordBatch>, name: Seq<char>) -> SpecTopicDescription {
    match spec_topic_id(meta, name) {
        Some(id) => SpecTopicDescription {
            name,
            error_code: 0,
            topic_id: id,
            is_internal: false,
            partition_info: spec_partitions(meta, id).map_values(
                |p: SpecPartitionRecord| spec_partition_of_record(p),
            ),
            authorized_operations: 0,
        },
        None => SpecTopicDescription {
            name,
            error_code: ERROR_UNKNOWN_TOPIC,
            topic_id: Seq::new(16, |i: int| 0u8),
            is_internal: false,
            partition_info: Seq::empty(),
            authorized_operations: 0,
        },
    }
}

/// All requested names described, in request order.
pub open spec fn spec_describe_topics(meta: Seq<SpecRecordBatch>, names: Seq<Seq<char>>) -> Seq<
    SpecTopicDescription,
> {
    names.map_values(|n: Seq<char>| spec_describe_topic(meta, n))
}

// ------------------------------------------------------------------
// Spec-level response encoding.
// ------------------------------------------------------------------

pub open spec fn spec_partition_bytes(p: SpecPartition) -> Seq<u8> {
    i16_be_bytes(p.error_code) + i32_be_bytes(p.partition_id) + i32_be_bytes(p.leader_id)
        + i32_be_bytes(p.leader_epoch) + compact_i32_array_bytes(p.replicas)
        + compact_i32_array_bytes(p.insync_replicas) + compact_i32_array_bytes(p.eligible_leader)
        + compact_i32_array_bytes(p.last_known_elr) + compact_i32_array_bytes(p.offline_replica)
        + seq![p.tag_buffer]
}

pub open spec fn spec_partitions_bytes(ps: Seq<SpecPartition>) -> Seq<u8>
    decreases ps.len(),
{
    if ps.len() == 0 {
        Seq::empty()
    } else {
        spec_partitions_bytes(ps.drop_last()) + spec_partition_bytes(ps.last())
    }
}

pub open spec fn spec_topic_description_bytes(t: SpecTopicDescription) -> Seq<u8> {
    let name_bytes = encode_utf8(t.name);
    i16_be_bytes(t.error_code) + seq![compact_count_byte(name_bytes.len() as int)] + name_bytes
        + t.topic_id + seq![
        (if t.is_internal {
            1u8
        } else {
            0u8
        }),
    ] + seq![compact_count_byte(t.partition_info.len() as int)] + spec_partitions_bytes(
        t.partition_info,
    ) + u32_be_bytes(t.authorized_operations) + seq![0u8]
}

pub open spec fn spec_topics_bytes(ts: Seq<SpecTopicDescription>) -> Seq<u8>
    decreases ts.len(),
{
    if ts.len() == 0 {
        Seq::empty()
    } else {
        spec_topics_bytes(ts.drop_last()) + spec_topic_description_bytes(ts.last())
    }
}

/// The whole response frame: a 32-bit total length over header and body,
/// the header (correlation id and a tag buffer), and the body (throttle
/// time, the topic descriptions as a compact array, the `0xFF` next-cursor
/// byte, and a trailing tag buffer).
pub open spec fn spec_response_bytes(res: SpecDescribeTopicResult) -> Seq<u8> {
    let header = u32_be_bytes(res.correlation_id) + seq![0u8];
    let body = u32_be_bytes(res.throttle_time) + seq![
        compact_count_byte(res.topic_descriptions.len() as int),
    ] + spec_topics_bytes(res.topic_descriptions) + seq![res.next_cursor, 0u8];
    u32_be_bytes((((header.len() + body.len()) as int) % 0x1_0000_0000) as u32) + header + body
}

/// The whole exchange: decode the request, decode the metadata log,
/// describe every requested topic, encode the response. A request or log
/// that cannot be decoded fails with exactly the decoder's error.
pub open spec fn spec_handle_request(req: Seq<u8>, log: Seq<u8>) -> Result<Seq<u8>, ParseError> {
    match spec_parse_request(req) {
        Ok((correlation_id, names)) => match spec_parse_batches(log, 0) {
            Ok((batches, _)) => Ok(
                spec_response_bytes(
                    SpecDescribeTopicResult {
                        correlation_id,
                        throttle_time: 0,
                        topic_descriptions: spec_describe_topics(batches, names),
                        next_cursor: 0xFF,
                    },
                ),
            ),
            Err(e) => Err(e),
        },
        Err(e) => Err(e),
    }
}

// ------------------------------------------------------------------
// Executable description building.
// ------------------------------------------------------------------

/// Turn a decoded partition record into one partition of a description:
/// error code 0, the record's ids and epochs, its replica sets, and empty
/// eligible-leader, last-known-ELR and offline-replica arrays.
pub fn partition_record_to_partition(partition_record: PartitionRecord) -> (p: Partition)
    ensures
        p@ == spec_partition_of_record(partition_record@),
{
    let p = Partition {
        error_code: 0,
        partition_id: partition_record.partition_id,
        leader_id: partition_record.leader_id,
        leader_epoch: partition_record.leader_epoch,
        replicas: partition_record.replicas,
        insync_replicas: partition_record.insync_replicas,
        eligible_leader: Vec::new(),
        last_known_elr: Vec::new(),
        offline_replica: Vec::new(),
        tag_buffer: 0,
    };
    proof {
        assert(p@ =~= spec_partition_of_record(partition_record@));
    }
    p
}

/// Describe the requested topics against the decoded metadata log, in
/// request order (no sorting), echoing the correlation id, with a zero
/// throttle time and the `0xFF` next-cursor marker.
pub fn describe_topics(
    correlation_id: u32,
    topics: Vec<String>,
    cluster_metadata: &ClusterMetadata,
) -> (r: DescribeTopicResult)
    ensures
        r@ == (SpecDescribeTopicResult {
            correlation_id,
            throttle_time: 0,
            topic_descriptions: spec_describe_topics(cluster_metadata@, topics.deep_view()),
            next_cursor: 0xFF,
        }),
{
    let mut topic_descriptions: Vec<TopicDescription> = Vec::new();
    let ghost names = topics.deep_view();
    proof {
        assert(topic_descriptions.deep_view() =~= names.take(0).map_values(
            |n: Seq<char>| spec_describe_topic(cluster_metadata@, n),
        ));
    }
    let mut i: usize = 0;
    while i < topics.len()
        invariant
            i <= topics@.len(),
            names == topics.deep_view(),
            topic_descriptions.deep_view() == names.take(i as int).map_values(
                |n: Seq<char>| spec_describe_topic(cluster_metadata@, n),
            ),
        decreases topics@.len() - i,
    {
        let topic_name = topics[i].clone();
        let description = match cluster_metadata.topic_id(&topic_name) {
            Some(topic_id) => {
                let partition_records = cluster_metadata.partitions(&topic_id);
                let ghost precs = partition_records.deep_view();
                let mut partition_info: Vec<Partition> = Vec::new();
                proof {
                    assert(partition_info.deep_view() =~= precs.take(0).map_values(
                        |p: SpecPartitionRecord| spec_partition_of_record(p),
                    ));
                }
                let mut j: usize = 0;
                while j < partition_records.len()
                    invariant
                        j <= partition_records@.len(),
                        precs == partition_records.deep_view(),
                        partition_info.deep_view() == precs.take(j as int).map_values(
                            |p: SpecPartitionRecord| spec_partition_of_record(p),
                        ),
                    decreases partition_records@.len() - j,
                {
                    let ghost pre_dv = partition_info.deep_view();
                    let part = partition_record_to_partition(partition_records[j].duplicate());
                    let ghost part_view = part@;
                    partition_info.push(part);
                    proof {
                        assert(partition_info.deep_view() =~= pre_dv.push(part_view));
                        assert(part_view == spec_partition_of_record(precs[j as int]));
                        assert(pre_dv.push(part_view) =~= precs.take(j + 1).map_values(
                            |p: SpecPartitionRecord| spec_partition_of_record(p),
                        ));
                    }
                    j = j + 1;
                }
                proof {
                    assert(precs.take(partition_records@.len() as int) =~= precs);
                }
                TopicDescription {
                    name: topic_name,
                    error_code: 0,
                    topic_id,
                    is_internal: false,
                    partition_info,
                    authorized_operations: 0,
                }
            },
            None => {
                let zero_id: Vec<u8> = vec![0u8; 16];
                TopicDescription {
                    name: topic_name,
                    error_code: ERROR_UNKNOWN_TOPIC,
                    topic_id: zero_id,
                    is_internal: false,
                    partition_info: Vec::new(),
                    authorized_operations: 0,
                }
            },
        };
        let ghost desc_view = description@;
        let ghost pre_dv = topic_descriptions.deep_view();
        proof {
            assert(desc_view =~= spec_describe_topic(cluster_metadata@, names[i as int]));
        }
        topic_descriptions.push(description);
        proof {
            assert(topic_descriptions.deep_view() =~= pre_dv.push(desc_view));
            assert(pre_dv.push(desc_view) =~= names.take(i + 1).map_values(
                |n: Seq<char>| spec_describe_topic(cluster_metadata@, n),
            ));
        }
        i = i + 1;
    }
    proof {
        assert(names.take(topics@.len() as int) =~= names);
    }
    let r = DescribeTopicResult {
        correlation_id,
        throttle_time: 0,
        topic_descriptions,
        next_cursor: 0xFF,
    };
    proof {
        assert(r@ =~= (SpecDescribeTopicResult {
            correlation_id,
            throttle_time: 0,
            topic_descriptions: spec_describe_topics(cluster_metadata@, topics.deep_view()),
            next_cursor: 0xFF,
        }));
    }
    r
}

// ------------------------------------------------------------------
// Executable response encoding.
// ------------------------------------------------------------------

fn push_partition(out: &mut Vec<u8>, p: &Partition)
    ensures
        final(out)@ == old(out)@ + spec_partition_bytes(p@),
{
    let ghost base = out@;
    push_i16_be(out, p.error_code);
    push_i32_be(out, p.partition_id);
    push_i32_be(out, p.leader_id);
    push_i32_be(out, p.leader_epoch);
    push_compact_i32_array(out, &p.replicas);
    push_compact_i32_array(out, &p.insync_replicas);
    push_compact_i32_array(out, &p.eligible_leader);
    push_compact_i32_array(out, &p.last_known_elr);
    push_compact_i32_array(out, &p.offline_replica);
    push_u8(out, p.tag_buffer);
    proof {
        assert(out@ =~= base + spec_partition_bytes(p@));
    }
}

fn push_topic_description(out: &mut Vec<u8>, t: &TopicDescription)
    ensures
        final(out)@ == old(out)@ + spec_topic_description_bytes(t@),
{
    let ghost base = out@;
    push_i16_be(out, t.error_code);
    let name_bytes = t.name.as_str().as_bytes();
    push_compact_count(out, name_bytes.len());
    push_bytes(out, name_bytes);
    push_bytes(out, t.topic_id.as_slice());
    push_u8(
        out,
        if t.is_internal {
            1
        } else {
            0
        },
    );
    push_compact_count(out, t.partition_info.len());
    let ghost mid = out@;
    let mut i: usize = 0;
    while i < t.partition_info.len()
        invariant
            i <= t.partition_info@.len(),
            out@ == mid + spec_partitions_bytes(t@.partition_info.take(i as int)),
        decreases t.partition_info@.len() - i,
    {
        push_partition(out, &t.partition_info[i]);
        i = i + 1;
        proof {
            assert(t@.partition_info.take(i as int).drop_last() =~= t@.partition_info.take(i - 1));
            assert(t@.partition_info.take(i as int).last() == t@.partition_info[i - 1]);
            assert((mid + spec_partitions_bytes(t@.partition_info.take(i - 1)))
                + spec_partition_bytes(t@.partition_info[i - 1]) =~= mid + spec_partitions_bytes(
                t@.partition_info.take(i as int),
            ));
        }
    }
    proof {
        assert(t@.partition_info.take(t.partition_info@.len() as int) =~= t@.partition_info);
    }
    push_u32_be(out, t.authorized_operations);
    push_u8(out, 0);
    proof {
        assert(out@ =~= base + spec_topic_description_bytes(t@));
    }
}

#[verifier::rlimit(100)]
fn encode_response(result: &DescribeTopicResult) -> (r: Vec<u8>)
    ensures
        r@ == spec_response_bytes(result@),
{
    let mut header: Vec<u8> = Vec::new();
    push_u32_be(&mut header, result.correlation_id);
    push_u8(&mut header, 0);
    let mut body: Vec<u8> = Vec::new();
    push_u32_be(&mut body, result.throttle_time);
    push_compact_count(&mut body, result.topic_descriptions.len());
    let ghost mid = body@;
    let mut i: usize = 0;
    while i < result.topic_descriptions.len()
        invariant
            i <= result.topic_descriptions@.len(),
            body@ == mid + spec_topics_bytes(result@.topic_descriptions.take(i as int)),
        decreases result.topic_descriptions@.len() - i,
    {
        push_topic_description(&mut body, &result.topic_descriptions[i]);
        i = i + 1;
        proof {
            assert(result@.topic_descriptions.take(i as int).drop_last()
                =~= result@.topic_descriptions.take(i - 1));
            assert(result@.topic_descriptions.take(i as int).last()
                == result@.topic_descriptions[i - 1]);
            assert((mid + spec_topics_bytes(result@.topic_descriptions.take(i - 1)))
                + spec_topic_description_bytes(result@.topic_descriptions[i - 1]) =~= mid
                + spec_topics_bytes(result@.topic_descriptions.take(i as int)));
        }
    }
    proof {
        assert(result@.topic_descriptions.take(result.topic_descriptions@.len() as int)
            =~= result@.topic_descriptions);
    }
    push_u8(&mut body, result.next_cursor);
    push_u8(&mut body, 0);
    proof {
        let hs = u32_be_bytes(result@.correlation_id) + seq![0u8];
        let bs = u32_be_bytes(result@.throttle_time) + seq![
            compact_count_byte(result@.topic_descriptions.len() as int),
        ] + spec_topics_bytes(result@.topic_descriptions) + seq![result@.next_cursor, 0u8];
        assert(header@ =~= hs);
        assert(body@ =~= bs);
    }
    let message_size: u64 = ((body.len() as u64) % 0x1_0000_0000 + (header.len() as u64))
        % 0x1_0000_0000;
    proof {
        lemma_add_mod_noop(body@.len() as int, header@.len() as int, 0x1_0000_0000);
        assert((header@.len() as u64) % 0x1_0000_0000 == header@.len());
        assert(message_size as int == ((header@.len() + body@.len()) as int) % 0x1_0000_0000);
    }
    let mut response: Vec<u8> = Vec::new();
    push_u32_be(&mut response, message_size as u32);
    push_bytes(&mut response, header.as_slice());
    push_bytes(&mut response, body.as_slice());
    proof {
        assert(response@ =~= spec_response_bytes(result@));
    }
    response
}

// ------------------------------------------------------------------
// The handler.
// ------------------------------------------------------------------

/// Read the requested topic names: `n` compact strings, each followed by
/// its tag-buffer byte.
fn read_topic_names(cursor: &mut Cursor<'_>, n: usize) -> (r: Result<Vec<String>, ParseError>)
    requires
        old(cursor).wf(),
    ensures
        final(cursor).wf(),
        final(cursor).data() == old(cursor).data(),
        match spec_read_topic_names(old(cursor).data(), old(cursor).position(), n as int) {
            Ok(v) => r is Ok && r->Ok_0.deep_view() == v.0 && final(cursor).position() == v.1,
            Err(e) => r == Err::<Vec<String>, ParseError>(e),
        },
{
    let ghost b = cursor.data();
    let ghost p0 = cursor.position();
    let mut out: Vec<String> = Vec::new();
    let mut i: usize = 0;
    proof {
        match spec_read_topic_names(b, p0, n as int) {
            Ok(v) => {
                assert(out.deep_view() + v.0 =~= v.0);
            },
            Err(_) => {},
        }
    }
    while i < n
        invariant
            cursor.wf(),
            cursor.data() == b,
            b == old(cursor).data(),
            p0 == old(cursor).position(),
            i <= n,
            spec_read_topic_names(b, p0, n as int) == (match spec_read_topic_names(
                b,
                cursor.position(),
                n - i,
            ) {
                Ok(v) => Ok::<(Seq<Seq<char>>, int), ParseError>((out.deep_view() + v.0, v.1)),
                Err(e) => Err::<(Seq<Seq<char>>, int), ParseError>(e),
            }),
        decreases n - i,
    {
        let ghost out_pre = out.deep_view();
        let name = match cursor.read_compact_string() {
            Ok(v) => v,
            Err(e) => { return Err(e) },
        };
        match cursor.read_u8() {
            Ok(_tag) => {},
            Err(e) => { return Err(e) },
        };
        out.push(name);
        i = i + 1;
        proof {
            assert(out.deep_view() =~= out_pre + seq![out@[out@.len() - 1]@]);
            match spec_read_topic_names(b, cursor.position(), n - i) {
                Ok(w) => {
                    assert(out_pre + (seq![out@[out@.len() - 1]@] + w.0) =~= out.deep_view()
                        + w.0);
                },
                Err(_) => {},
            }
        }
    }
    proof {
        assert(out.deep_view() + Seq::<Seq<char>>::empty() =~= out.deep_view());
    }
    Ok(out)
}

/// Answer a DescribeTopicPartitions request against a freshly read
/// metadata-log buffer. Decodes the request, decodes the log, describes
/// every requested topic in request order, and returns the exact response
/// frame; a request or log that cannot be decoded fails with the
/// decoder's error and no response is produced.
pub fn handle_request(input: &[u8], metadata_log: &[u8]) -> (r: Result<Vec<u8>, ParseError>)
    ensures
        match spec_handle_request(input@, metadata_log@) {
            Ok(bytes) => r is Ok && r->Ok_0@ == bytes,
            Err(e) => r == Err::<Vec<u8>, ParseError>(e),
        },
{
    let mut cursor = Cursor::new(input);
    let _message_size = match cursor.read_u32() {
        Ok(v) => v,
        Err(e) => { return Err(e) },
    };
    let _api_key = match cursor.read_u16() {
        Ok(v) => v,
        Err(e) => { return Err(e) },
    };
    let _api_version = match cursor.read_u16() {
        Ok(v) => v,
        Err(e) => { return Err(e) },
    };
    let correlation_id = match cursor.read_u32() {
        Ok(v) => v,
        Err(e) => { return Err(e) },
    };
    let client_id_length = match cursor.read_u16() {
        Ok(v) => v,
        Err(e) => { return Err(e) },
    };
    let _client_id = match cursor.read_bytes(client_id_length as usize) {
        Ok(v) => v,
        Err(e) => { return Err(e) },
    };
    match cursor.read_u8() {
        Ok(_tag) => {},
        Err(e) => { return Err(e) },
    };
    let topic_array_length = match cursor.read_u8() {
        Ok(v) => v,
        Err(e) => { return Err(e) },
    };
    let n: usize = if topic_array_length == 0 {
        0
    } else {
        (topic_array_length - 1) as usize
    };
    let topic_names = match read_topic_names(&mut cursor, n) {
        Ok(v) => v,
        Err(e) => { return Err(e) },
    };
    let cluster_metadata = match ClusterMetadata::parse(metadata_log) {
        Ok(v) => v,
        Err(e) => { return Err(e) },
    };
    let result = describe_topics(correlation_id, topic_names, &cluster_metadata);
    Ok(encode_response(&result))
}

} // verus!
