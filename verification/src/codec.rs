//! The frame codec: serializing a message into its on-disk binary frame and
//! parsing a frame back into a dispatch request, with the byte layout and
//! both directions stated as spec functions.

use vstd::prelude::*;
use crate::endian::{
    be_bytes_u16, be_bytes_u32, be_bytes_u64, be_u16, be_u32, be_u64, get_u16_be, get_u32_be,
    get_u64_be, put_u16_be, put_u32_be, put_u64_be,
};
use crate::message::{Message, MessageStoreConfig, MessageVersion, AppendMessageStatus};
use crate::props::{encode_props, props_view, encode_properties};
use crate::sysflag::{spec_born_host_len, spec_store_host_len, BORNHOST_V6_FLAG,
    STOREHOSTADDRESS_V6_FLAG};
use crate::{MESSAGE_MAGIC_CODE, MESSAGE_MAGIC_CODE_V2, BLANK_MAGIC_CODE};

verus! {

/// Byte position of the magic code within a frame.
pub const MESSAGE_MAGIC_CODE_POSITION: usize = 4;

/// Byte position of the `sysFlag` field within a frame.
pub const SYSFLAG_POSITION: usize = 36;

/// Byte position of the `physicalOffset` field within a frame.
pub const PHYSICAL_OFFSET_POSITION: usize = 28;

/// Width of the topic length field: one byte for V1, two for V2.
pub open spec fn spec_topic_len_width(version: MessageVersion) -> int {
    match version {
        MessageVersion::V1 => 1,
        MessageVersion::V2 => 2,
    }
}

/// The magic code a version writes.
pub open spec fn spec_magic_of(version: MessageVersion) -> u32 {
    match version {
        MessageVersion::V1 => MESSAGE_MAGIC_CODE,
        MessageVersion::V2 => MESSAGE_MAGIC_CODE_V2,
    }
}

/// Total frame length as a function of the version, the `sysFlag` (which
/// fixes the two host widths) and the three variable lengths.
pub open spec fn spec_cal_msg_length(
    version: MessageVersion,
    sys_flag: u32,
    body_len: int,
    topic_len: int,
    props_len: int,
) -> int {
    72 + spec_born_host_len(sys_flag) + spec_store_host_len(sys_flag) + body_len
        + spec_topic_len_width(version) + topic_len + 2 + props_len
}

/// Total frame length of a message.
pub open spec fn spec_total_size(m: Message) -> int {
    spec_cal_msg_length(
        m.version,
        m.sys_flag,
        m.body@.len() as int,
        m.topic@.len() as int,
        encode_props(props_view(m.properties@)).len() as int,
    )
}

/// Total frame length, computed at run time.
pub fn cal_msg_length(
    version: MessageVersion,
    sys_flag: u32,
    body_len: u32,
    topic_len: u32,
    props_len: u32,
) -> (r: u32)
    requires
        body_len <= 0x7FFF_FFFF,
        topic_len <= 0xFFFF,
        props_len <= 0x7FFF,
    ensures
        r == spec_cal_msg_length(
            version,
            sys_flag,
            body_len as int,
            topic_len as int,
            props_len as int,
        ),
{
    let born_host_len: u32 = if sys_flag & BORNHOST_V6_FLAG == 0 {
        8
    } else {
        20
    };
    let store_host_len: u32 = if sys_flag & STOREHOSTADDRESS_V6_FLAG == 0 {
        8
    } else {
        20
    };
    let topic_len_width: u32 = match version {
        MessageVersion::V1 => 1,
        MessageVersion::V2 => 2,
    };
    72 + born_host_len + store_host_len + body_len + topic_len_width + topic_len + 2 + props_len
}

/// The encoded topic length field.
pub open spec fn spec_topic_len_bytes(m: Message) -> Seq<u8> {
    match m.version {
        MessageVersion::V1 => seq![m.topic@.len() as u8],
        MessageVersion::V2 => be_bytes_u16(m.topic@.len() as u16),
    }
}

/// The full on-disk frame of a message, carrying `phys` as its own
/// physical offset.
pub open spec fn spec_frame(m: Message, phys: u64) -> Seq<u8> {
    let props = encode_props(props_view(m.properties@));
    be_bytes_u32(spec_total_size(m) as u32) + be_bytes_u32(spec_magic_of(m.version))
        + be_bytes_u32(m.body_crc) + be_bytes_u32(m.queue_id) + be_bytes_u32(m.flag)
        + be_bytes_u64(m.queue_offset) + be_bytes_u64(phys) + be_bytes_u32(m.sys_flag)
        + be_bytes_u64(m.born_timestamp) + m.born_host@ + be_bytes_u64(m.store_timestamp)
        + m.store_host@ + be_bytes_u32(m.reconsume_times) + be_bytes_u64(
        m.prepared_transaction_offset,
    ) + be_bytes_u32(m.body@.len() as u32) + m.body@ + spec_topic_len_bytes(m) + m.topic@
        + be_bytes_u16(props.len() as u16) + props
}

/// Append all of `b` to `out`.
fn put_bytes(out: &mut Vec<u8>, b: &Vec<u8>)
    ensures
        final(out)@ == old(out)@ + b@,
{
    let n = b.len();
    let mut i: usize = 0;
    proof {
        assert(out@ =~= out@ + b@.take(0));
    }
    while i < n
        invariant
            0 <= i <= n == b@.len(),
            out@ == old(out)@ + b@.take(i as int),
        decreases n - i,
    {
        out.push(b[i]);
        proof {
            assert(out@ =~= old(out)@ + b@.take(i + 1));
        }
        i = i + 1;
    }
    proof {
        assert(b@.take(n as int) =~= b@);
    }
}

/// Serialize a message into its frame, carrying `phys` as the frame's own
/// physical offset. Fails exactly when the frame would exceed the
/// configured message size cap.
#[verifier::rlimit(30)]
pub fn encode_message(msg: &Message, phys: u64, config: &MessageStoreConfig) -> (r: Result<
    Vec<u8>,
    AppendMessageStatus,
>)
    requires
        msg.wf(),
        config.wf(),
    ensures
        match r {
            Ok(v) => {
                &&& v@ == spec_frame(*msg, phys)
                &&& v@.len() == spec_total_size(*msg)
                &&& spec_total_size(*msg) <= config.max_message_size
            },
            Err(st) => {
                &&& st == AppendMessageStatus::MessageSizeExceeded
                &&& spec_total_size(*msg) > config.max_message_size
            },
        },
{
    let props = encode_properties(&msg.properties);
    let props_len = props.len() as u32;
    let topic_len = msg.topic.len() as u32;
    let body_len = msg.body.len() as u32;
    let total_size = cal_msg_length(msg.version, msg.sys_flag, body_len, topic_len, props_len);
    if total_size > config.max_message_size {
        return Err(AppendMessageStatus::MessageSizeExceeded);
    }
    let magic: u32 = match msg.version {
        MessageVersion::V1 => MESSAGE_MAGIC_CODE,
        MessageVersion::V2 => MESSAGE_MAGIC_CODE_V2,
    };
    let mut out: Vec<u8> = Vec::new();
    put_u32_be(&mut out, total_size);
    proof {
        assert(out@ =~= be_bytes_u32(spec_total_size(*msg) as u32));
    }
    put_u32_be(&mut out, magic);
    put_u32_be(&mut out, msg.body_crc);
    put_u32_be(&mut out, msg.queue_id);
    put_u32_be(&mut out, msg.flag);
    put_u64_be(&mut out, msg.queue_offset);
    put_u64_be(&mut out, phys);
    put_u32_be(&mut out, msg.sys_flag);
    put_u64_be(&mut out, msg.born_timestamp);
    put_bytes(&mut out, &msg.born_host);
    put_u64_be(&mut out, msg.store_timestamp);
    put_bytes(&mut out, &msg.store_host);
    put_u32_be(&mut out, msg.reconsume_times);
    put_u64_be(&mut out, msg.prepared_transaction_offset);
    put_u32_be(&mut out, body_len);
    put_bytes(&mut out, &msg.body);
    match msg.version {
        MessageVersion::V1 => {
            out.push(msg.topic.len() as u8);
            proof {
                assert(spec_topic_len_bytes(*msg) =~= seq![msg.topic@.len() as u8]);
                assert(out@.drop_last().push(out@.last()) =~= out@);
            }
        },
        MessageVersion::V2 => {
            put_u16_be(&mut out, msg.topic.len() as u16);
        },
    }
    put_bytes(&mut out, &msg.topic);
    put_u16_be(&mut out, props_len as u16);
    put_bytes(&mut out, &props);
    proof {
        assert(out@ =~= spec_frame(*msg, phys));
        crate::endian::lemma_be_u32_round_trip(spec_total_size(*msg) as u32);
        assert(out@.len() == spec_total_size(*msg));
    }
    Ok(out)
}

/// Number of occurrences of byte `x` in `s`.
pub open spec fn count_byte(s: Seq<u8>, x: u8) -> int
    decreases s.len(),
{
    if s.len() == 0 {
        0
    } else {
        count_byte(s.drop_last(), x) + if s.last() == x {
            1int
        } else {
            0int
        }
    }
}

/// Count the occurrences of byte `x` in `s`.
pub fn count_byte_occurrences(s: &Vec<u8>, x: u8) -> (r: usize)
    ensures
        r == count_byte(s@, x),
{
    let n = s.len();
    let mut count: usize = 0;
    let mut i: usize = 0;
    proof {
        assert(s@.take(0) =~= Seq::<u8>::empty());
    }
    while i < n
        invariant
            0 <= i <= n == s@.len(),
            count == count_byte(s@.take(i as int), x),
            count <= i,
        decreases n - i,
    {
        if s[i] == x {
            count = count + 1;
        }
        proof {
            assert(s@.take(i + 1).drop_last() =~= s@.take(i as int));
            assert(s@.take(i + 1).last() == s@[i as int]);
        }
        i = i + 1;
    }
    proof {
        assert(s@.take(n as int) =~= s@);
    }
    count
}

/// The duplication-info property is well shaped: present, with exactly one
/// underscore (two fields).
pub open spec fn spec_dup_info_ok(props: Seq<(Seq<u8>, Seq<u8>)>) -> bool {
    match crate::props::lookup(props, crate::message::spec_property_dup_info()) {
        Some(d) => count_byte(d, 0x5F) == 1,
        None => false,
    }
}

/// Everything a frame holds past the body: topic, properties and the
/// derived fields, plus the CRC-independent consistency checks.
#[verifier::opaque]
pub open spec fn parse_frame_tail(
    b: Seq<u8>,
    check_dup: bool,
    version: MessageVersion,
    total: u32,
    bl: int,
    pt: int,
    head: crate::message::FrameInfo,
) -> crate::message::FrameInfo {
    let tlw = spec_topic_len_width(version);
    if b.len() < pt + tlw {
        crate::message::frame_stub(false, -1)
    } else {
        let tl: int = match version {
            MessageVersion::V1 => b[pt] as int,
            MessageVersion::V2 => be_u16(b.subrange(pt, pt + 2)) as int,
        };
        if b.len() < pt + tlw + tl {
            crate::message::frame_stub(false, -1)
        } else {
            let topic = b.subrange(pt + tlw, pt + tlw + tl);
            let pp = pt + tlw + tl;
            if b.len() < pp + 2 {
                crate::message::frame_stub(false, -1)
            } else {
                let pl_u = be_u16(b.subrange(pp, pp + 2));
                if pl_u > 0x7FFF {
                    crate::message::frame_stub(false, -1)
                } else {
                    let pl = pl_u as int;
                    if b.len() < pp + 2 + pl {
                        crate::message::frame_stub(false, -1)
                    } else {
                        let props = if pl > 0 {
                            crate::props::parse_props(b.subrange(pp + 2, pp + 2 + pl))
                        } else {
                            Seq::empty()
                        };
                        if pl > 0 && check_dup && !spec_dup_info_ok(props) {
                            crate::message::frame_stub(false, -1)
                        } else {
                            let keys = match crate::props::lookup(
                                props,
                                crate::message::spec_property_keys(),
                            ) {
                                Some(v) => v,
                                None => Seq::empty(),
                            };
                            let uniq_key = crate::props::lookup(
                                props,
                                crate::message::spec_property_uniq_key(),
                            );
                            let tags_code: u32 = match crate::props::lookup(
                                props,
                                crate::message::spec_property_tags(),
                            ) {
                                Some(t) => crate::props::tags_hash(t),
                                None => 0,
                            };
                            let read_length = spec_cal_msg_length(
                                version,
                                head.sys_flag,
                                bl,
                                tl,
                                pl,
                            );
                            if total != read_length {
                                crate::message::frame_stub(false, (total as i32) as int)
                            } else {
                                let batch = spec_batch_of(props);
                                crate::message::FrameInfo {
                                    success: true,
                                    msg_size: (total as i32) as int,
                                    topic: topic,
                                    keys: keys,
                                    uniq_key: uniq_key,
                                    tags_code: tags_code,
                                    properties: props,
                                    msg_base_offset: batch.0,
                                    batch_size: batch.1,
                                    ..head
                                }
                            }
                        }
                    }
                }
            }
        }
    }
}

/// The batch base offset and batch size a property list denotes: set only
/// when both inner-batch properties are present and decimal.
pub open spec fn spec_batch_of(props: Seq<(Seq<u8>, Seq<u8>)>) -> (u64, u32) {
    match (
        crate::props::lookup(props, crate::message::spec_property_inner_num()),
        crate::props::lookup(props, crate::message::spec_property_inner_base()),
    ) {
        (Some(n), Some(base)) => {
            if crate::props::is_dec(n) && crate::props::dec_value(n) <= 0x7FFF
                && crate::props::is_dec(base) && crate::props::dec_value(base) <= u64::MAX {
                (crate::props::dec_value(base) as u64, crate::props::dec_value(n) as u32)
            } else {
                (0, 0)
            }
        },
        _ => (0, 0),
    }
}

/// What decoding a frame yields: the dispatch request of a well-formed
/// frame; `{success: true, msg_size: 0}` for the padding sentinel; and
/// `{success: false}` for a torn or corrupt frame, with `msg_size` -1 (or
/// the claimed size, when only the lengths disagree).
#[verifier::opaque]
pub open spec fn parse_frame(b: Seq<u8>, check_crc: bool, check_dup: bool, read_body: bool)
    -> crate::message::FrameInfo {
    if b.len() < 8 {
        crate::message::frame_stub(false, -1)
    } else {
        let total = be_u32(b.subrange(0, 4));
        let magic = be_u32(b.subrange(4, 8));
        if magic == BLANK_MAGIC_CODE {
            crate::message::frame_stub(true, 0)
        } else if magic != MESSAGE_MAGIC_CODE && magic != MESSAGE_MAGIC_CODE_V2 {
            crate::message::frame_stub(false, -1)
        } else {
            let version = if magic == MESSAGE_MAGIC_CODE_V2 {
                MessageVersion::V2
            } else {
                MessageVersion::V1
            };
            if b.len() < 48 {
                crate::message::frame_stub(false, -1)
            } else {
                let sys_flag = be_u32(b.subrange(36, 40));
                let bh = spec_born_host_len(sys_flag) as int;
                let sh = spec_store_host_len(sys_flag) as int;
                if b.len() < 72 + bh + sh {
                    crate::message::frame_stub(false, -1)
                } else {
                    let body_len_u = be_u32(b.subrange(68 + bh + sh, 72 + bh + sh));
                    if body_len_u > 0x7FFF_FFFF {
                        crate::message::frame_stub(false, -1)
                    } else {
                        let bl = body_len_u as int;
                        let pb = 72 + bh + sh;
                        if b.len() < pb + bl {
                            crate::message::frame_stub(false, -1)
                        } else {
                            let body = b.subrange(pb, pb + bl);
                            let body_crc = be_u32(b.subrange(8, 12));
                            if bl > 0 && read_body && check_crc && crate::crc::crc32_of(body)
                                != body_crc {
                                crate::message::frame_stub(false, -1)
                            } else {
                                let head = crate::message::FrameInfo {
                                    success: true,
                                    msg_size: 0,
                                    topic: Seq::empty(),
                                    queue_id: be_u32(b.subrange(12, 16)),
                                    flag: be_u32(b.subrange(16, 20)),
                                    commit_log_offset: be_u64(b.subrange(28, 36)),
                                    tags_code: 0,
                                    born_timestamp: be_u64(b.subrange(40, 48)),
                                    store_timestamp: be_u64(b.subrange(48 + bh, 56 + bh)),
                                    consume_queue_offset: be_u64(b.subrange(20, 28)),
                                    keys: Seq::empty(),
                                    uniq_key: None,
                                    sys_flag: sys_flag,
                                    reconsume_times: be_u32(
                                        b.subrange(56 + bh + sh, 60 + bh + sh),
                                    ),
                                    prepared_transaction_offset: be_u64(
                                        b.subrange(60 + bh + sh, 68 + bh + sh),
                                    ),
                                    properties: Seq::empty(),
                                    msg_base_offset: 0,
                                    batch_size: 0,
                                    body_crc: body_crc,
                                    born_host: b.subrange(48, 48 + bh),
                                    store_host: b.subrange(56 + bh, 56 + bh + sh),
                                };
                                parse_frame_tail(b, check_dup, version, total, bl, pb + bl, head)
                            }
                        }
                    }
                }
            }
        }
    }
}

/// Decode everything past the body of a frame: topic, properties and the
/// derived fields, finishing with the length-consistency check. `head`
/// carries the fixed-width fields already read.
#[verifier::rlimit(60)]
#[verifier::spinoff_prover]
fn decode_tail(
    bytes: &Vec<u8>,
    check_dup_info: bool,
    version: MessageVersion,
    total: u32,
    body_len_u: u32,
    pt: usize,
    head: crate::message::DispatchRequest,
) -> (r: crate::message::DispatchRequest)
    requires
        pt <= bytes@.len(),
        body_len_u <= 0x7FFF_FFFF,
    ensures
        r@ == parse_frame_tail(
            bytes@,
            check_dup_info,
            version,
            total,
            body_len_u as int,
            pt as int,
            head@,
        ),
{
    proof {
        reveal(parse_frame_tail);
    }
    let len = bytes.len();
    let sys_flag = head.sys_flag;
    let tlw: usize = match version {
        MessageVersion::V1 => 1,
        MessageVersion::V2 => 2,
    };
    if len - pt < tlw {
        return crate::message::DispatchRequest::stub(false, -1);
    }
    let tl: usize = match version {
        MessageVersion::V1 => bytes[pt] as usize,
        MessageVersion::V2 => get_u16_be(bytes, pt) as usize,
    };
    if len - (pt + tlw) < tl {
        return crate::message::DispatchRequest::stub(false, -1);
    }
    let topic = crate::props::copy_range(bytes, pt + tlw, pt + tlw + tl);
    let pp: usize = pt + tlw + tl;
    if len - pp < 2 {
        return crate::message::DispatchRequest::stub(false, -1);
    }
    let pl_u = get_u16_be(bytes, pp);
    if pl_u > 0x7FFF {
        return crate::message::DispatchRequest::stub(false, -1);
    }
    let pl = pl_u as usize;
    if len - (pp + 2) < pl {
        return crate::message::DispatchRequest::stub(false, -1);
    }
    let props: Vec<crate::props::Property> = if pl > 0 {
        let region = crate::props::copy_range(bytes, pp + 2, pp + 2 + pl);
        crate::props::parse_properties(&region)
    } else {
        Vec::new()
    };
    proof {
        if pl == 0 {
            assert(props_view(props@) =~= Seq::<(Seq<u8>, Seq<u8>)>::empty());
        }
    }
    if pl > 0 && check_dup_info {
        let dup_key = crate::message::property_dup_info();
        match crate::props::get_property(&props, &dup_key) {
            Some(d) => {
                if count_byte_occurrences(d, 0x5F) != 1 {
                    return crate::message::DispatchRequest::stub(false, -1);
                }
            },
            None => {
                return crate::message::DispatchRequest::stub(false, -1);
            },
        }
    }
    let keys_key = crate::message::property_keys();
    let keys: Vec<u8> = match crate::props::get_property(&props, &keys_key) {
        Some(v) => crate::props::copy_range(v, 0, v.len()),
        None => Vec::new(),
    };
    let uniq_key_name = crate::message::property_uniq_key();
    let uniq_key: Option<Vec<u8>> = match crate::props::get_property(&props, &uniq_key_name) {
        Some(v) => Some(crate::props::copy_range(v, 0, v.len())),
        None => None,
    };
    let tags_key = crate::message::property_tags();
    let tags_code: u32 = match crate::props::get_property(&props, &tags_key) {
        Some(v) => crate::props::tags_string_to_tags_code(v),
        None => 0,
    };
    let read_length = cal_msg_length(version, sys_flag, body_len_u, tl as u32, pl_u as u32);
    if total != read_length {
        return crate::message::DispatchRequest::stub(false, total as i32);
    }
    let mut msg_base_offset: u64 = 0;
    let mut batch_size: u32 = 0;
    let num_key = crate::message::property_inner_num();
    let base_key = crate::message::property_inner_base();
    match (
        crate::props::get_property(&props, &num_key),
        crate::props::get_property(&props, &base_key),
    ) {
        (Some(n), Some(base)) => {
            match (crate::props::parse_dec(n), crate::props::parse_dec(base)) {
                (Some(nn), Some(bb)) => {
                    if nn <= 0x7FFF {
                        batch_size = nn as u32;
                        msg_base_offset = bb;
                    }
                },
                _ => {},
            }
        },
        _ => {},
    }
    let r = crate::message::DispatchRequest {
        success: true,
        msg_size: total as i32,
        topic,
        tags_code,
        keys,
        uniq_key,
        properties: props,
        msg_base_offset,
        batch_size,
        ..head
    };
    proof {
        let expected = parse_frame_tail(
            bytes@,
            check_dup_info,
            version,
            total,
            body_len_u as int,
            pt as int,
            head@,
        );
        assert(r@ =~= expected);
    }
    r
}

/// Decode the frame at the start of `bytes` into a dispatch request,
/// verifying the body CRC and the duplication-info shape when asked to.
/// Never reads past `bytes`; a frame whose lengths point outside it is
/// reported as a failed decode, the recovery walk's truncation signal.
#[verifier::rlimit(60)]
#[verifier::spinoff_prover]
pub fn check_message_and_return_size(
    bytes: &Vec<u8>,
    check_crc: bool,
    check_dup_info: bool,
    read_body: bool,
    config: &MessageStoreConfig,
) -> (r: crate::message::DispatchRequest)
    ensures
        r@ == parse_frame(
            bytes@,
            check_crc && !config.force_verify_prop_crc,
            check_dup_info,
            read_body,
        ),
{
    proof {
        reveal(parse_frame);
    }
    let eff_crc = check_crc && !config.force_verify_prop_crc;
    let len = bytes.len();
    if len < 8 {
        return crate::message::DispatchRequest::stub(false, -1);
    }
    let total = get_u32_be(bytes, 0);
    let magic = get_u32_be(bytes, 4);
    if magic == BLANK_MAGIC_CODE {
        return crate::message::DispatchRequest::stub(true, 0);
    }
    if magic != MESSAGE_MAGIC_CODE && magic != MESSAGE_MAGIC_CODE_V2 {
        return crate::message::DispatchRequest::stub(false, -1);
    }
    let version = if magic == MESSAGE_MAGIC_CODE_V2 {
        MessageVersion::V2
    } else {
        MessageVersion::V1
    };
    if len < 48 {
        return crate::message::DispatchRequest::stub(false, -1);
    }
    let sys_flag = get_u32_be(bytes, 36);
    let bh: usize = if sys_flag & BORNHOST_V6_FLAG == 0 {
        8
    } else {
        20
    };
    let sh: usize = if sys_flag & STOREHOSTADDRESS_V6_FLAG == 0 {
        8
    } else {
        20
    };
    let pb: usize = 72 + bh + sh;
    if len < pb {
        return crate::message::DispatchRequest::stub(false, -1);
    }
    let body_len_u = get_u32_be(bytes, 68 + bh + sh);
    if body_len_u > 0x7FFF_FFFF {
        return crate::message::DispatchRequest::stub(false, -1);
    }
    let bl = body_len_u as usize;
    if len - pb < bl {
        return crate::message::DispatchRequest::stub(false, -1);
    }
    let pt: usize = pb + bl;
    let body_crc = get_u32_be(bytes, 8);
    if bl > 0 && read_body && eff_crc {
        let body = crate::props::copy_range(bytes, pb, pt);
        let crc = crate::crc::crc32(&body);
        if crc != body_crc {
            return crate::message::DispatchRequest::stub(false, -1);
        }
    }
    let born_host = crate::props::copy_range(bytes, 48, 48 + bh);
    let store_host = crate::props::copy_range(bytes, 56 + bh, 56 + bh + sh);
    let head = crate::message::DispatchRequest {
        success: true,
        msg_size: 0,
        topic: Vec::new(),
        queue_id: get_u32_be(bytes, 12),
        flag: get_u32_be(bytes, 16),
        commit_log_offset: get_u64_be(bytes, 28),
        tags_code: 0,
        born_timestamp: get_u64_be(bytes, 40),
        store_timestamp: get_u64_be(bytes, 48 + bh),
        consume_queue_offset: get_u64_be(bytes, 20),
        keys: Vec::new(),
        uniq_key: None,
        sys_flag,
        reconsume_times: get_u32_be(bytes, 56 + bh + sh),
        prepared_transaction_offset: get_u64_be(bytes, 60 + bh + sh),
        properties: Vec::new(),
        msg_base_offset: 0,
        batch_size: 0,
        body_crc,
        born_host,
        store_host,
    };
    proof {
        let b = bytes@;
        let ebh = spec_born_host_len(sys_flag) as int;
        let esh = spec_store_host_len(sys_flag) as int;
        assert(props_view(head.properties@) =~= Seq::<(Seq<u8>, Seq<u8>)>::empty());
        assert(head@ =~= crate::message::FrameInfo {
            success: true,
            msg_size: 0,
            topic: Seq::empty(),
            queue_id: be_u32(b.subrange(12, 16)),
            flag: be_u32(b.subrange(16, 20)),
            commit_log_offset: be_u64(b.subrange(28, 36)),
            tags_code: 0,
            born_timestamp: be_u64(b.subrange(40, 48)),
            store_timestamp: be_u64(b.subrange(48 + ebh, 56 + ebh)),
            consume_queue_offset: be_u64(b.subrange(20, 28)),
            keys: Seq::empty(),
            uniq_key: None,
            sys_flag: sys_flag,
            reconsume_times: be_u32(b.subrange(56 + ebh + esh, 60 + ebh + esh)),
            prepared_transaction_offset: be_u64(b.subrange(60 + ebh + esh, 68 + ebh + esh)),
            properties: Seq::empty(),
            msg_base_offset: 0,
            batch_size: 0,
            body_crc: body_crc,
            born_host: b.subrange(48, 48 + ebh),
            store_host: b.subrange(56 + ebh, 56 + ebh + esh),
        });
    }
    let r = decode_tail(bytes, check_dup_info, version, total, body_len_u, pt, head);
    proof {
        assert(r@ == parse_frame(bytes@, eff_crc, check_dup_info, read_body));
    }
    r
}

/// Splitting a known concatenation inside `b`: if a stretch of `b` equals
/// `a + c`, its two halves equal `a` and `c`.
proof fn lemma_peel(b: Seq<u8>, off: int, a: Seq<u8>, c: Seq<u8>)
    requires
        0 <= off,
        off + a.len() + c.len() <= b.len(),
        b.subrange(off, off + a.len() + c.len()) == a + c,
    ensures
        b.subrange(off, off + a.len()) == a,
        b.subrange(off + a.len(), off + a.len() + c.len()) == c,
{
    let whole = b.subrange(off, off + a.len() + c.len());
    assert forall|i: int| 0 <= i < a.len() implies b.subrange(off, off + a.len())[i] == a[i] by {
        assert(whole[i] == (a + c)[i]);
    }
    assert(b.subrange(off, off + a.len()) =~= a);
    assert forall|i: int| 0 <= i < c.len() implies b.subrange(
        off + a.len(),
        off + a.len() + c.len(),
    )[i] == c[i] by {
        assert(whole[a.len() + i] == (a + c)[a.len() + i]);
    }
    assert(b.subrange(off + a.len(), off + a.len() + c.len()) =~= c);
}

/// A non-empty property list encodes to a non-empty region.
proof fn lemma_encode_props_nonempty(ps: Seq<(Seq<u8>, Seq<u8>)>)
    requires
        ps.len() > 0,
    ensures
        encode_props(ps).len() > 0,
{
    assert(encode_props(ps) == crate::props::encode_pair(ps[0]) + encode_props(ps.skip(1)));
}

/// All fixed and variable fields of a frame sit at their layout offsets:
/// each subrange of the encoded frame is the encoding of the matching
/// message field.
#[verifier::rlimit(100)]
#[verifier::spinoff_prover]
proof fn lemma_frame_extract(m: Message, phys: u64)
    requires
        m.wf(),
    ensures
        ({
            let b = spec_frame(m, phys);
            let props = encode_props(props_view(m.properties@));
            let bh = spec_born_host_len(m.sys_flag) as int;
            let sh = spec_store_host_len(m.sys_flag) as int;
            let bl = m.body@.len() as int;
            let tlw = spec_topic_len_width(m.version);
            let tl = m.topic@.len() as int;
            let pl = props.len() as int;
            let pb = 72 + bh + sh;
            let pt = pb + bl;
            let pp = pt + tlw + tl;
            &&& b.len() == spec_total_size(m)
            &&& b.subrange(0, 4) == be_bytes_u32(spec_total_size(m) as u32)
            &&& b.subrange(4, 8) == be_bytes_u32(spec_magic_of(m.version))
            &&& b.subrange(8, 12) == be_bytes_u32(m.body_crc)
            &&& b.subrange(12, 16) == be_bytes_u32(m.queue_id)
            &&& b.subrange(16, 20) == be_bytes_u32(m.flag)
            &&& b.subrange(20, 28) == be_bytes_u64(m.queue_offset)
            &&& b.subrange(28, 36) == be_bytes_u64(phys)
            &&& b.subrange(36, 40) == be_bytes_u32(m.sys_flag)
            &&& b.subrange(40, 48) == be_bytes_u64(m.born_timestamp)
            &&& b.subrange(48, 48 + bh) == m.born_host@
            &&& b.subrange(48 + bh, 56 + bh) == be_bytes_u64(m.store_timestamp)
            &&& b.subrange(56 + bh, 56 + bh + sh) == m.store_host@
            &&& b.subrange(56 + bh + sh, 60 + bh + sh) == be_bytes_u32(m.reconsume_times)
            &&& b.subrange(60 + bh + sh, 68 + bh + sh) == be_bytes_u64(
                m.prepared_transaction_offset,
            )
            &&& b.subrange(68 + bh + sh, 72 + bh + sh) == be_bytes_u32(m.body@.len() as u32)
            &&& b.subrange(pb, pb + bl) == m.body@
            &&& b.subrange(pt, pt + tlw) == spec_topic_len_bytes(m)
            &&& b.subrange(pt + tlw, pt + tlw + tl) == m.topic@
            &&& b.subrange(pp, pp + 2) == be_bytes_u16(props.len() as u16)
            &&& b.subrange(pp + 2, pp + 2 + pl) == props
        }),
{
    let b = spec_frame(m, phys);
    let props = encode_props(props_view(m.properties@));
    let total = spec_total_size(m);
    let total_u = total as u32;
    let magic = spec_magic_of(m.version);
    let p0 = be_bytes_u32(total_u);
    let p1 = be_bytes_u32(magic);
    let p2 = be_bytes_u32(m.body_crc);
    let p3 = be_bytes_u32(m.queue_id);
    let p4 = be_bytes_u32(m.flag);
    let p5 = be_bytes_u64(m.queue_offset);
    let p6 = be_bytes_u64(phys);
    let p7 = be_bytes_u32(m.sys_flag);
    let p8 = be_bytes_u64(m.born_timestamp);
    let p9 = m.born_host@;
    let p10 = be_bytes_u64(m.store_timestamp);
    let p11 = m.store_host@;
    let p12 = be_bytes_u32(m.reconsume_times);
    let p13 = be_bytes_u64(m.prepared_transaction_offset);
    let p14 = be_bytes_u32(m.body@.len() as u32);
    let p15 = m.body@;
    let p16 = spec_topic_len_bytes(m);
    let p17 = m.topic@;
    let p18 = be_bytes_u16(props.len() as u16);
    let p19 = props;
    assert(p16.len() == spec_topic_len_width(m.version));
    let c0 = p0;
    let c1 = c0 + p1;
    let c2 = c1 + p2;
    let c3 = c2 + p3;
    let c4 = c3 + p4;
    let c5 = c4 + p5;
    let c6 = c5 + p6;
    let c7 = c6 + p7;
    let c8 = c7 + p8;
    let c9 = c8 + p9;
    let c10 = c9 + p10;
    let c11 = c10 + p11;
    let c12 = c11 + p12;
    let c13 = c12 + p13;
    let c14 = c13 + p14;
    let c15 = c14 + p15;
    let c16 = c15 + p16;
    let c17 = c16 + p17;
    let c18 = c17 + p18;
    let c19 = c18 + p19;
    assert(b == c19);
    assert(b.subrange(0, b.len() as int) =~= b);
    lemma_peel(b, 0, c18, p19);
    lemma_peel(b, 0, c17, p18);
    lemma_peel(b, 0, c16, p17);
    lemma_peel(b, 0, c15, p16);
    lemma_peel(b, 0, c14, p15);
    lemma_peel(b, 0, c13, p14);
    lemma_peel(b, 0, c12, p13);
    lemma_peel(b, 0, c11, p12);
    lemma_peel(b, 0, c10, p11);
    lemma_peel(b, 0, c9, p10);
    lemma_peel(b, 0, c8, p9);
    lemma_peel(b, 0, c7, p8);
    lemma_peel(b, 0, c6, p7);
    lemma_peel(b, 0, c5, p6);
    lemma_peel(b, 0, c4, p5);
    lemma_peel(b, 0, c3, p4);
    lemma_peel(b, 0, c2, p3);
    lemma_peel(b, 0, c1, p2);
    lemma_peel(b, 0, c0, p1);
}

/// Frame round trip. Parsing the frame of a well-formed message recovers
/// its fields, its properties, and its size; with CRC checking on, parsing
/// succeeds exactly when the frame's CRC field is the body's checksum, and
/// a frame whose body does not match its CRC field is rejected as fatal.
#[verifier::rlimit(100)]
#[verifier::spinoff_prover]
pub proof fn lemma_frame_round_trip(m: Message, phys: u64, check_crc: bool)
    requires
        m.wf(),
    ensures
        spec_frame(m, phys).len() == spec_total_size(m),
        (!check_crc || m.body@.len() == 0 || m.body_crc == crate::crc::crc32_of(m.body@)) ==> ({
            let r = parse_frame(spec_frame(m, phys), check_crc, false, true);
            &&& r.success
            &&& r.msg_size == spec_total_size(m)
            &&& r.topic == m.topic@
            &&& r.queue_id == m.queue_id
            &&& r.flag == m.flag
            &&& r.sys_flag == m.sys_flag
            &&& r.body_crc == m.body_crc
            &&& r.consume_queue_offset == m.queue_offset
            &&& r.commit_log_offset == phys
            &&& r.born_timestamp == m.born_timestamp
            &&& r.store_timestamp == m.store_timestamp
            &&& r.born_host == m.born_host@
            &&& r.store_host == m.store_host@
            &&& r.reconsume_times == m.reconsume_times
            &&& r.prepared_transaction_offset == m.prepared_transaction_offset
            &&& r.properties == props_view(m.properties@)
        }),
        (check_crc && m.body@.len() > 0 && m.body_crc != crate::crc::crc32_of(m.body@))
            ==> parse_frame(spec_frame(m, phys), check_crc, false, true)
            == crate::message::frame_stub(false, -1),
{
    reveal(parse_frame);
    reveal(parse_frame_tail);
    let b = spec_frame(m, phys);
    let props = encode_props(props_view(m.properties@));
    let total = spec_total_size(m);
    let total_u = total as u32;
    let magic = spec_magic_of(m.version);
    let bh = spec_born_host_len(m.sys_flag) as int;
    let sh = spec_store_host_len(m.sys_flag) as int;
    let bl = m.body@.len() as int;
    let tlw = spec_topic_len_width(m.version);
    let tl = m.topic@.len() as int;
    let pl = props.len() as int;
    let pb = 72 + bh + sh;
    let pt = pb + bl;
    let pp = pt + tlw + tl;
    lemma_frame_extract(m, phys);
    crate::endian::lemma_be_u32_round_trip(total_u);
    crate::endian::lemma_be_u32_round_trip(magic);
    crate::endian::lemma_be_u32_round_trip(m.body_crc);
    crate::endian::lemma_be_u32_round_trip(m.queue_id);
    crate::endian::lemma_be_u32_round_trip(m.flag);
    crate::endian::lemma_be_u64_round_trip(m.queue_offset);
    crate::endian::lemma_be_u64_round_trip(phys);
    crate::endian::lemma_be_u32_round_trip(m.sys_flag);
    crate::endian::lemma_be_u64_round_trip(m.born_timestamp);
    crate::endian::lemma_be_u64_round_trip(m.store_timestamp);
    crate::endian::lemma_be_u32_round_trip(m.reconsume_times);
    crate::endian::lemma_be_u64_round_trip(m.prepared_transaction_offset);
    crate::endian::lemma_be_u32_round_trip(m.body@.len() as u32);
    crate::endian::lemma_be_u16_round_trip(m.topic@.len() as u16);
    crate::endian::lemma_be_u16_round_trip(props.len() as u16);
    match m.version {
        MessageVersion::V1 => {
            assert(b.subrange(pt, pt + 1)[0] == b[pt]);
            assert(b[pt] == m.topic@.len() as u8);
        },
        MessageVersion::V2 => {
            assert(be_u16(b.subrange(pt, pt + 2)) == m.topic@.len() as u16);
        },
    }
    if pl > 0 {
        crate::props::lemma_props_round_trip(props_view(m.properties@));
    } else {
        if props_view(m.properties@).len() > 0 {
            lemma_encode_props_nonempty(props_view(m.properties@));
        }
        assert(props_view(m.properties@) =~= Seq::<(Seq<u8>, Seq<u8>)>::empty());
    }
    assert(MESSAGE_MAGIC_CODE != BLANK_MAGIC_CODE);
    assert(MESSAGE_MAGIC_CODE_V2 != BLANK_MAGIC_CODE);
    assert(total <= 0x4100_0000);
}

} // verus!
