//! The logical message handed to the append engine, the dispatch request a
//! parsed frame yields, the store and broker configuration the log reads,
//! and the result types of an append.

use vstd::prelude::*;
use crate::props::{
    dec_value, is_dec, lookup, pairs_wf, parse_dec, props_view, Property, get_property,
};
use crate::sysflag::{
    spec_born_host_len, spec_store_host_len, INNER_BATCH_FLAG,
};

verus! {

/// Frame version: V1 writes a 1-byte topic length, V2 a 2-byte one.
#[derive(Clone, Copy, PartialEq, Eq, Structural, Debug)]
pub enum MessageVersion {
    V1,
    V2,
}

/// Role of this broker in its replica set.
#[derive(Clone, Copy, PartialEq, Eq, Structural, Debug)]
pub enum BrokerRole {
    AsyncMaster,
    SyncMaster,
    Slave,
}

/// Layout of the consume queue of a topic.
#[derive(Clone, Copy, PartialEq, Eq, Structural, Debug)]
pub enum CQType {
    SimpleCQ,
    BatchCQ,
}

/// Per-topic configuration, as far as the log reads it.
#[derive(Clone, Copy, PartialEq, Eq, Structural, Debug)]
pub struct TopicConfig {
    pub cq_type: CQType,
}

/// Store configuration the commit log reads.
#[derive(Clone, Copy)]
pub struct MessageStoreConfig {
    /// Size in bytes of every segment file.
    pub mapped_file_size_commit_log: u32,
    /// Upper bound on the encoded size of one frame.
    pub max_message_size: u32,
    /// Verify body CRC while recovering.
    pub check_crc_on_recover: bool,
    /// Duplication mode: producer timestamps are authoritative and frames
    /// carry duplication markers.
    pub duplication_enable: bool,
    /// Message index is maintained.
    pub message_index_enable: bool,
    /// Recovery trusts only segments the index provably covers.
    pub message_index_safe: bool,
    /// Switch to the V2 frame for topics longer than 127 bytes.
    pub auto_message_version_on_topic_len: bool,
    /// Keep the per-property CRC property on messages.
    pub enabled_append_prop_crc: bool,
    /// Defer body-CRC verification to the per-property CRC (reserved).
    pub force_verify_prop_crc: bool,
    /// This broker's replication role.
    pub broker_role: BrokerRole,
    /// Replicas that must acknowledge an append.
    pub in_sync_replicas: u32,
}

/// Broker-level configuration the commit log reads.
#[derive(Clone, Copy)]
pub struct BrokerConfig {
    pub enable_controller_mode: bool,
    pub enable_slave_acting_master: bool,
    pub duplication_enable: bool,
}

impl MessageStoreConfig {
    /// A configuration the log can run on: segments hold at least one
    /// maximal frame plus the 8-byte padding sentinel, and sizes stay far
    /// from any machine limit.
    pub open spec fn wf(self) -> bool {
        &&& 8 <= self.mapped_file_size_commit_log <= 0x4000_0000
        &&& self.max_message_size + 8 <= self.mapped_file_size_commit_log
        &&& self.max_message_size >= 96
    }
}

/// A message submitted to the log, already routed to a (topic, queueId).
pub struct Message {
    pub topic: Vec<u8>,
    pub queue_id: u32,
    pub flag: u32,
    pub sys_flag: u32,
    pub born_timestamp: u64,
    /// Producer address: 4-byte IPv4 or 16-byte IPv6 address plus 4-byte port.
    pub born_host: Vec<u8>,
    pub store_timestamp: u64,
    /// Broker address, same shape as `born_host`.
    pub store_host: Vec<u8>,
    pub reconsume_times: u32,
    pub prepared_transaction_offset: u64,
    pub body: Vec<u8>,
    pub properties: Vec<Property>,
    /// CRC32 of `body`; stamped by the append engine.
    pub body_crc: u32,
    /// Logical offset within (topic, queueId); stamped by the append engine.
    pub queue_offset: u64,
    /// Frame version; chosen by the append engine from the topic length.
    pub version: MessageVersion,
    /// Producer asked to wait until the message is durable.
    pub wait_store_msg_ok: bool,
}

impl Message {
    /// A message the codec can frame: host widths agree with the `sysFlag`
    /// bits, the topic fits its length field, properties are encodable and
    /// fit their 15-bit length field, and the body is far from any
    /// machine limit.
    pub open spec fn wf(self) -> bool {
        &&& self.born_host@.len() == spec_born_host_len(self.sys_flag)
        &&& self.store_host@.len() == spec_store_host_len(self.sys_flag)
        &&& self.topic@.len() <= 0xFFFF
        &&& (self.version == MessageVersion::V1 ==> self.topic@.len() <= 127)
        &&& pairs_wf(props_view(self.properties@))
        &&& crate::props::encode_props(props_view(self.properties@)).len() <= 0x7FFF
        &&& self.body@.len() <= 0x4000_0000
    }
}

/// Ghost image of a parsed frame: what `DispatchRequest` denotes.
#[verifier::ext_equal]
pub ghost struct FrameInfo {
    pub success: bool,
    pub msg_size: int,
    pub topic: Seq<u8>,
    pub queue_id: u32,
    pub flag: u32,
    pub commit_log_offset: u64,
    pub tags_code: u32,
    pub born_timestamp: u64,
    pub store_timestamp: u64,
    pub consume_queue_offset: u64,
    pub keys: Seq<u8>,
    pub uniq_key: Option<Seq<u8>>,
    pub sys_flag: u32,
    pub reconsume_times: u32,
    pub prepared_transaction_offset: u64,
    pub properties: Seq<(Seq<u8>, Seq<u8>)>,
    pub msg_base_offset: u64,
    pub batch_size: u32,
    pub body_crc: u32,
    pub born_host: Seq<u8>,
    pub store_host: Seq<u8>,
}

/// A parsed, in-memory summary of one frame.
pub struct DispatchRequest {
    pub success: bool,
    /// Size of the frame; 0 for the padding sentinel, -1 for a fatal decode.
    pub msg_size: i32,
    pub topic: Vec<u8>,
    pub queue_id: u32,
    pub flag: u32,
    pub commit_log_offset: u64,
    pub tags_code: u32,
    pub born_timestamp: u64,
    pub store_timestamp: u64,
    pub consume_queue_offset: u64,
    pub keys: Vec<u8>,
    pub uniq_key: Option<Vec<u8>>,
    pub sys_flag: u32,
    pub reconsume_times: u32,
    pub prepared_transaction_offset: u64,
    pub properties: Vec<Property>,
    pub msg_base_offset: u64,
    pub batch_size: u32,
    pub body_crc: u32,
    pub born_host: Vec<u8>,
    pub store_host: Vec<u8>,
}

impl View for DispatchRequest {
    type V = FrameInfo;

    open spec fn view(&self) -> FrameInfo {
        FrameInfo {
            success: self.success,
            msg_size: self.msg_size as int,
            topic: self.topic@,
            queue_id: self.queue_id,
            flag: self.flag,
            commit_log_offset: self.commit_log_offset,
            tags_code: self.tags_code,
            born_timestamp: self.born_timestamp,
            store_timestamp: self.store_timestamp,
            consume_queue_offset: self.consume_queue_offset,
            keys: self.keys@,
            uniq_key: match self.uniq_key {
                Some(ref v) => Some(v@),
                None => None,
            },
            sys_flag: self.sys_flag,
            reconsume_times: self.reconsume_times,
            prepared_transaction_offset: self.prepared_transaction_offset,
            properties: props_view(self.properties@),
            msg_base_offset: self.msg_base_offset,
            batch_size: self.batch_size,
            body_crc: self.body_crc,
            born_host: self.born_host@,
            store_host: self.store_host@,
        }
    }
}

/// The ghost image of a failed or sentinel decode: all fields empty but for
/// `success` and `msg_size`.
pub open spec fn frame_stub(success: bool, msg_size: int) -> FrameInfo {
    FrameInfo {
        success: success,
        msg_size: msg_size,
        topic: Seq::empty(),
        queue_id: 0,
        flag: 0,
        commit_log_offset: 0,
        tags_code: 0,
        born_timestamp: 0,
        store_timestamp: 0,
        consume_queue_offset: 0,
        keys: Seq::empty(),
        uniq_key: None,
        sys_flag: 0,
        reconsume_times: 0,
        prepared_transaction_offset: 0,
        properties: Seq::empty(),
        msg_base_offset: 0,
        batch_size: 0,
        body_crc: 0,
        born_host: Seq::empty(),
        store_host: Seq::empty(),
    }
}

impl DispatchRequest {
    /// A request carrying only a decode verdict.
    pub fn stub(success: bool, msg_size: i32) -> (r: DispatchRequest)
        ensures
            r@ == frame_stub(success, msg_size as int),
    {
        let r = DispatchRequest {
            success,
            msg_size,
            topic: Vec::new(),
            queue_id: 0,
            flag: 0,
            commit_log_offset: 0,
            tags_code: 0,
            born_timestamp: 0,
            store_timestamp: 0,
            consume_queue_offset: 0,
            keys: Vec::new(),
            uniq_key: None,
            sys_flag: 0,
            reconsume_times: 0,
            prepared_transaction_offset: 0,
            properties: Vec::new(),
            msg_base_offset: 0,
            batch_size: 0,
            body_crc: 0,
            born_host: Vec::new(),
            store_host: Vec::new(),
        };
        proof {
            assert(props_view(r.properties@) =~= Seq::<(Seq<u8>, Seq<u8>)>::empty());
            assert(r@ =~= frame_stub(success, msg_size as int));
        }
        r
    }
}

/// Status of the raw append into a segment.
#[derive(Clone, Copy, PartialEq, Eq, Structural, Debug)]
pub enum AppendMessageStatus {
    PutOk,
    EndOfFile,
    MessageSizeExceeded,
    PropertiesSizeExceeded,
    UnknownError,
}

/// Status surfaced to the caller of `put_message`.
#[derive(Clone, Copy, PartialEq, Eq, Structural, Debug)]
pub enum PutMessageStatus {
    PutOk,
    CreateMappedFileFailed,
    MessageIllegal,
    FlushDiskTimeout,
    FlushSlaveTimeout,
    SlaveNotAvailable,
    UnknownError,
}

/// Where and how large one accepted frame is.
#[derive(Clone, Copy, PartialEq, Eq, Structural, Debug)]
pub struct AppendMessageResult {
    pub status: AppendMessageStatus,
    /// Physical offset the frame was written at.
    pub wrote_offset: u64,
    /// Bytes the append consumed.
    pub wrote_bytes: u32,
    /// Logical queue offset carried by the frame.
    pub logics_offset: u64,
    /// Store timestamp carried by the frame.
    pub store_timestamp: u64,
}

/// Result of `put_message`.
pub struct PutMessageResult {
    pub put_message_status: PutMessageStatus,
    pub append_message_result: Option<AppendMessageResult>,
}

impl PutMessageResult {
    /// A result with no append detail.
    pub fn new_default(status: PutMessageStatus) -> (r: PutMessageResult)
        ensures
            r.put_message_status == status,
            r.append_message_result is None,
    {
        PutMessageResult { put_message_status: status, append_message_result: None }
    }

    /// A result wrapping the raw append outcome.
    pub fn new_append_result(status: PutMessageStatus, ar: Option<AppendMessageResult>) -> (
        r: PutMessageResult)
        ensures
            r.put_message_status == status,
            r.append_message_result == ar,
    {
        PutMessageResult { put_message_status: status, append_message_result: ar }
    }

    /// The status carried by this result.
    pub fn put_message_status(&self) -> (r: PutMessageStatus)
        ensures
            r == self.put_message_status,
    {
        self.put_message_status
    }
}

/// The key of the `KEYS` property.
pub open spec fn spec_property_keys() -> Seq<u8> {
    seq![75u8, 69u8, 89u8, 83u8]
}

/// The key of the unique-client-message-id property.
pub open spec fn spec_property_uniq_key() -> Seq<u8> {
    seq![85u8, 78u8, 73u8, 81u8, 95u8, 75u8, 69u8, 89u8]
}

/// The key of the duplication-info property.
pub open spec fn spec_property_dup_info() -> Seq<u8> {
    seq![68u8, 85u8, 80u8, 95u8, 73u8, 78u8, 70u8, 79u8]
}

/// The key of the `TAGS` property.
pub open spec fn spec_property_tags() -> Seq<u8> {
    seq![84u8, 65u8, 71u8, 83u8]
}

/// The key of the inner-batch count property.
pub open spec fn spec_property_inner_num() -> Seq<u8> {
    seq![73u8, 78u8, 78u8, 69u8, 82u8, 95u8, 78u8, 85u8, 77u8]
}

/// The key of the inner-batch base-offset property.
pub open spec fn spec_property_inner_base() -> Seq<u8> {
    seq![73u8, 78u8, 78u8, 69u8, 82u8, 95u8, 66u8, 65u8, 83u8, 69u8]
}

/// The key of the per-property CRC property.
pub open spec fn spec_property_crc32() -> Seq<u8> {
    seq![95u8, 95u8, 67u8, 82u8, 67u8, 51u8, 50u8, 35u8]
}

/// The key of the inner-multi-dispatch property.
pub open spec fn spec_property_inner_multi_dispatch() -> Seq<u8> {
    seq![
        73u8,
        78u8,
        78u8,
        69u8,
        82u8,
        95u8,
        77u8,
        85u8,
        76u8,
        84u8,
        73u8,
        95u8,
        68u8,
        73u8,
        83u8,
        80u8,
        65u8,
        84u8,
        67u8,
        72u8,
    ]
}

/// The topic prefix of retry groups.
pub open spec fn spec_retry_group_topic_prefix() -> Seq<u8> {
    seq![37u8, 82u8, 69u8, 84u8, 82u8, 89u8, 37u8]
}

/// The key of the `KEYS` property.
pub fn property_keys() -> (r: Vec<u8>)
    ensures
        r@ == spec_property_keys(),
{
    let r = vec![75u8, 69u8, 89u8, 83u8];
    proof {
        assert(r@ =~= spec_property_keys());
    }
    r
}

/// The key of the unique-client-message-id property.
pub fn property_uniq_key() -> (r: Vec<u8>)
    ensures
        r@ == spec_property_uniq_key(),
{
    let r = vec![85u8, 78u8, 73u8, 81u8, 95u8, 75u8, 69u8, 89u8];
    proof {
        assert(r@ =~= spec_property_uniq_key());
    }
    r
}

/// The key of the duplication-info property.
pub fn property_dup_info() -> (r: Vec<u8>)
    ensures
        r@ == spec_property_dup_info(),
{
    let r = vec![68u8, 85u8, 80u8, 95u8, 73u8, 78u8, 70u8, 79u8];
    proof {
        assert(r@ =~= spec_property_dup_info());
    }
    r
}

/// The key of the `TAGS` property.
pub fn property_tags() -> (r: Vec<u8>)
    ensures
        r@ == spec_property_tags(),
{
    let r = vec![84u8, 65u8, 71u8, 83u8];
    proof {
        assert(r@ =~= spec_property_tags());
    }
    r
}

/// The key of the inner-batch count property.
pub fn property_inner_num() -> (r: Vec<u8>)
    ensures
        r@ == spec_property_inner_num(),
{
    let r = vec![73u8, 78u8, 78u8, 69u8, 82u8, 95u8, 78u8, 85u8, 77u8];
    proof {
        assert(r@ =~= spec_property_inner_num());
    }
    r
}

/// The key of the inner-batch base-offset property.
pub fn property_inner_base() -> (r: Vec<u8>)
    ensures
        r@ == spec_property_inner_base(),
{
    let r = vec![73u8, 78u8, 78u8, 69u8, 82u8, 95u8, 66u8, 65u8, 83u8, 69u8];
    proof {
        assert(r@ =~= spec_property_inner_base());
    }
    r
}

/// The key of the per-property CRC property.
pub fn property_crc32() -> (r: Vec<u8>)
    ensures
        r@ == spec_property_crc32(),
{
    let r = vec![95u8, 95u8, 67u8, 82u8, 67u8, 51u8, 50u8, 35u8];
    proof {
        assert(r@ =~= spec_property_crc32());
    }
    r
}

/// The key of the inner-multi-dispatch property.
pub fn property_inner_multi_dispatch() -> (r: Vec<u8>)
    ensures
        r@ == spec_property_inner_multi_dispatch(),
{
    let r = vec![
        73u8,
        78u8,
        78u8,
        69u8,
        82u8,
        95u8,
        77u8,
        85u8,
        76u8,
        84u8,
        73u8,
        95u8,
        68u8,
        73u8,
        83u8,
        80u8,
        65u8,
        84u8,
        67u8,
        72u8,
    ];
    proof {
        assert(r@ =~= spec_property_inner_multi_dispatch());
    }
    r
}

/// The topic prefix of retry groups.
pub fn retry_group_topic_prefix() -> (r: Vec<u8>)
    ensures
        r@ == spec_retry_group_topic_prefix(),
{
    let r = vec![37u8, 82u8, 69u8, 84u8, 82u8, 89u8, 37u8];
    proof {
        assert(r@ =~= spec_retry_group_topic_prefix());
    }
    r
}

/// Whether `s` starts with `prefix`.
pub open spec fn spec_starts_with(s: Seq<u8>, prefix: Seq<u8>) -> bool {
    s.len() >= prefix.len() && s.take(prefix.len() as int) == prefix
}

/// Whether `s` starts with `prefix`.
pub fn bytes_starts_with(s: &Vec<u8>, prefix: &Vec<u8>) -> (r: bool)
    ensures
        r == spec_starts_with(s@, prefix@),
{
    if s.len() < prefix.len() {
        return false;
    }
    let n = prefix.len();
    let mut i: usize = 0;
    while i < n
        invariant
            0 <= i <= n == prefix@.len() <= s@.len(),
            forall|j: int| 0 <= j < i ==> s@[j] == prefix@[j],
        decreases n - i,
    {
        if s[i] != prefix[i] {
            proof {
                assert(s@.take(n as int)[i as int] != prefix@[i as int]);
            }
            return false;
        }
        i = i + 1;
    }
    proof {
        assert(s@.take(n as int) =~= prefix@);
    }
    true
}

/// The consume-queue type of a topic, defaulting to the simple layout.
pub fn get_cq_type(topic_config: Option<&TopicConfig>) -> (r: CQType)
    ensures
        r == match topic_config {
            Some(tc) => tc.cq_type,
            None => CQType::SimpleCQ,
        },
{
    match topic_config {
        Some(tc) => tc.cq_type,
        None => CQType::SimpleCQ,
    }
}

/// How many logical queue slots a message occupies: its `INNER_NUM`
/// property when it is an inner-batch message (by flag or by queue type)
/// and that property is a decimal within the 15-bit count range, else 1.
pub open spec fn spec_message_num(
    sys_flag: u32,
    cq_type: CQType,
    props: Seq<(Seq<u8>, Seq<u8>)>,
) -> u32 {
    if (sys_flag & INNER_BATCH_FLAG) == INNER_BATCH_FLAG || cq_type == CQType::BatchCQ {
        match lookup(props, spec_property_inner_num()) {
            Some(v) => if is_dec(v) && dec_value(v) <= 0x7FFF {
                dec_value(v) as u32
            } else {
                1
            },
            None => 1,
        }
    } else {
        1
    }
}

/// How many logical queue slots `msg` occupies.
pub fn get_message_num(topic_config: Option<&TopicConfig>, msg: &Message) -> (r: u32)
    ensures
        r == spec_message_num(
            msg.sys_flag,
            match topic_config {
                Some(tc) => tc.cq_type,
                None => CQType::SimpleCQ,
            },
            props_view(msg.properties@),
        ),
        r <= 0x7FFF,
{
    let cq_type = get_cq_type(topic_config);
    let mut message_num: u32 = 1;
    if crate::sysflag::flag_check(msg.sys_flag, INNER_BATCH_FLAG) || cq_type == CQType::BatchCQ {
        let key = property_inner_num();
        match get_property(&msg.properties, &key) {
            Some(v) => {
                match parse_dec(v) {
                    Some(x) => {
                        if x <= 0x7FFF {
                            message_num = x as u32;
                        }
                    },
                    None => {},
                }
            },
            None => {},
        }
    }
    message_num
}

/// Whether a message is a multi-dispatch one: it carries a non-empty
/// inner-multi-dispatch property and its topic is a retry-group topic.
pub fn is_multi_dispatch_msg(msg: &Message) -> (r: bool)
    ensures
        r == ({
            let p = lookup(props_view(msg.properties@), spec_property_inner_multi_dispatch());
            &&& p is Some
            &&& p.unwrap().len() > 0
            &&& spec_starts_with(msg.topic@, spec_retry_group_topic_prefix())
        }),
{
    let key = property_inner_multi_dispatch();
    let has_prop = match get_property(&msg.properties, &key) {
        Some(v) => v.len() > 0,
        None => false,
    };
    let prefix = retry_group_topic_prefix();
    has_prop && bytes_starts_with(&msg.topic, &prefix)
}

} // verus!
