use commitlog::commit_log::{CommitLog, StoreCheckpoint};
use commitlog::message::{
    BrokerConfig, BrokerRole, Message, MessageStoreConfig, MessageVersion, PutMessageStatus,
};
use commitlog::props::Property;
use commitlog::recover::IndexAction;

fn test_config() -> MessageStoreConfig {
    MessageStoreConfig {
        mapped_file_size_commit_log: 1024,
        max_message_size: 1000,
        check_crc_on_recover: true,
        duplication_enable: false,
        message_index_enable: false,
        message_index_safe: false,
        auto_message_version_on_topic_len: false,
        enabled_append_prop_crc: false,
        force_verify_prop_crc: false,
        broker_role: BrokerRole::AsyncMaster,
        in_sync_replicas: 1,
    }
}

fn test_broker() -> BrokerConfig {
    BrokerConfig {
        enable_controller_mode: false,
        enable_slave_acting_master: false,
        duplication_enable: false,
    }
}

fn test_checkpoint() -> StoreCheckpoint {
    StoreCheckpoint { min_timestamp: 0, min_timestamp_index: 0, confirm_phy_offset: 0 }
}

// encoded size = 72 fixed + 8 + 8 (IPv4 hosts) + 1 (V1 topic len) + topic + 2 + body
fn msg_of_size(total: usize, topic: &[u8], queue_id: u32) -> Message {
    let overhead = 72 + 8 + 8 + 1 + topic.len() + 2;
    assert!(total >= overhead);
    let body = vec![7u8; total - overhead];
    Message {
        topic: topic.to_vec(),
        queue_id,
        flag: 0,
        sys_flag: 0,
        born_timestamp: 11,
        born_host: vec![0u8; 8],
        store_timestamp: 0,
        store_host: vec![0u8; 8],
        reconsume_times: 0,
        prepared_transaction_offset: 0,
        body,
        properties: Vec::new(),
        body_crc: 0,
        queue_offset: 0,
        version: MessageVersion::V1,
        wait_store_msg_ok: false,
    }
}

fn new_log() -> CommitLog {
    CommitLog::new(test_config(), test_broker(), test_checkpoint())
}

#[test]
fn appends_three_messages_into_one_segment() {
    let mut log = new_log();
    let offsets: Vec<u64> = [300usize, 400, 300]
        .iter()
        .map(|s| {
            let r = log.put_message(msg_of_size(*s, b"topicA", 0), 1000);
            assert_eq!(r.put_message_status, PutMessageStatus::PutOk);
            r.append_message_result.unwrap().wrote_offset
        })
        .collect();
    assert_eq!(offsets, vec![0, 300, 700]);
    assert_eq!(log.get_max_offset(), 1000);
    let logics: u64 = log.put_message(msg_of_size(300, b"topicA", 0), 1001)
        .append_message_result
        .unwrap()
        .logics_offset;
    assert_eq!(logics, 3);
}

#[test]
fn rollover_writes_padding_sentinel() {
    let mut log = new_log();
    for s in [300usize, 400, 300] {
        log.put_message(msg_of_size(s, b"topicA", 0), 1000);
    }
    // remaining space 24 < 400: pad and roll to a fresh segment
    let r = log.put_message(msg_of_size(400, b"topicA", 0), 1001);
    assert_eq!(r.put_message_status, PutMessageStatus::PutOk);
    let ar = r.append_message_result.unwrap();
    assert_eq!(ar.wrote_offset, 1024);
    assert_eq!(log.get_max_offset(), 1424);
    let seg0 = &log.mapped_file_queue.mapped_files[0];
    assert_eq!(seg0.wrote_position, 1024);
    // sentinel at the old wrote position: [24][BLANK_MAGIC]
    assert_eq!(&seg0.data[1000..1004], &[0, 0, 0, 24]);
    assert_eq!(&seg0.data[1004..1008], &[0xCB, 0xD4, 0x31, 0x94]);
    let seg1 = &log.mapped_file_queue.mapped_files[1];
    assert_eq!(seg1.file_from_offset, 1024);
    assert_eq!(seg1.wrote_position, 400);
}

#[test]
fn oversized_message_is_illegal_and_changes_nothing() {
    let mut log = new_log();
    log.put_message(msg_of_size(300, b"topicA", 0), 1000);
    let r = log.put_message(msg_of_size(1001, b"topicA", 0), 1001);
    assert_eq!(r.put_message_status, PutMessageStatus::MessageIllegal);
    assert_eq!(log.get_max_offset(), 300);
    let next = log.put_message(msg_of_size(300, b"topicA", 0), 1002);
    assert_eq!(next.append_message_result.unwrap().logics_offset, 1);
}

#[test]
fn decode_round_trips_an_encoded_frame() {
    let mut log = new_log();
    let mut m = msg_of_size(300, b"topicA", 3);
    m.flag = 9;
    m.properties.push(Property { key: b"KEYS".to_vec(), value: b"k1".to_vec() });
    let r = log.put_message(m, 77);
    assert_eq!(r.put_message_status, PutMessageStatus::PutOk);
    let seg = &log.mapped_file_queue.mapped_files[0];
    // the KEYS property adds 8 encoded bytes to the 300 the body accounts for
    assert_eq!(seg.wrote_position, 308);
    let frame = seg.data[0..seg.wrote_position].to_vec();
    let d = commitlog::codec::check_message_and_return_size(
        &frame,
        true,
        false,
        true,
        &test_config(),
    );
    assert!(d.success);
    assert_eq!(d.msg_size, frame.len() as i32);
    assert_eq!(d.topic, b"topicA".to_vec());
    assert_eq!(d.queue_id, 3);
    assert_eq!(d.flag, 9);
    assert_eq!(d.commit_log_offset, 0);
    assert_eq!(d.store_timestamp, 77);
    assert_eq!(d.keys, b"k1".to_vec());
    assert_eq!(d.body_crc, crc32fast::hash(&vec![7u8; 203]));
}

#[test]
fn flipping_a_body_bit_fails_crc_check() {
    let mut log = new_log();
    log.put_message(msg_of_size(300, b"topicA", 0), 1000);
    let seg = &log.mapped_file_queue.mapped_files[0];
    let mut frame = seg.data[0..300].to_vec();
    for bit in 0..8 {
        let mut corrupt = frame.clone();
        corrupt[150] ^= 1 << bit;
        let d = commitlog::codec::check_message_and_return_size(
            &corrupt,
            true,
            false,
            true,
            &test_config(),
        );
        assert!(!d.success);
        assert_eq!(d.msg_size, -1);
    }
    // untouched frame still decodes
    let d = commitlog::codec::check_message_and_return_size(
        &frame,
        true,
        false,
        true,
        &test_config(),
    );
    assert!(d.success);
    frame[4] ^= 0xFF; // break the magic instead
    let d = commitlog::codec::check_message_and_return_size(
        &frame,
        true,
        false,
        true,
        &test_config(),
    );
    assert!(!d.success);
}

#[test]
fn batch_messages_advance_queue_counter_by_inner_num() {
    let mut log = new_log();
    for _ in 0..10 {
        log.put_message(msg_of_size(200, b"batched", 1), 1000);
    }
    assert_eq!(log.queue_offsets.get_offset(&b"batched".to_vec(), 1), 10);
    let mut m1 = msg_of_size(300, b"batched", 1);
    m1.sys_flag = 128; // inner batch
    m1.properties.push(Property { key: b"INNER_NUM".to_vec(), value: b"5".to_vec() });
    let r1 = log.put_message(m1, 1001);
    assert_eq!(r1.append_message_result.unwrap().logics_offset, 10);
    let mut m2 = msg_of_size(300, b"batched", 1);
    m2.sys_flag = 128;
    m2.properties.push(Property { key: b"INNER_NUM".to_vec(), value: b"3".to_vec() });
    let r2 = log.put_message(m2, 1002);
    assert_eq!(r2.append_message_result.unwrap().logics_offset, 15);
    assert_eq!(log.queue_offsets.get_offset(&b"batched".to_vec(), 1), 18);
}

#[test]
fn half_transactions_do_not_advance_the_counter() {
    let mut log = new_log();
    log.put_message(msg_of_size(200, b"t", 0), 1000);
    let mut half = msg_of_size(200, b"t", 0);
    half.sys_flag = 4; // prepared type
    log.put_message(half, 1001);
    assert_eq!(log.queue_offsets.get_offset(&b"t".to_vec(), 0), 1);
    let mut commit = msg_of_size(200, b"t", 0);
    commit.sys_flag = 8; // commit type
    let r = log.put_message(commit, 1002);
    assert_eq!(r.append_message_result.unwrap().logics_offset, 1);
    assert_eq!(log.queue_offsets.get_offset(&b"t".to_vec(), 0), 2);
}

#[test]
fn roll_next_file_lands_on_a_boundary() {
    let log = new_log();
    for o in [0i64, 1, 1023, 1024, 5000] {
        let r = log.roll_next_file(o);
        assert_eq!(r % 1024, 0);
        assert!(r > o);
    }
    assert_eq!(log.roll_next_file(0), 1024);
    assert_eq!(log.roll_next_file(1024), 2048);
}

#[test]
fn normal_recovery_truncates_at_corrupt_frame() {
    let mut log = new_log();
    for s in [300usize, 400, 300, 400] {
        log.put_message(msg_of_size(s, b"topicA", 0), 1000);
    }
    // corrupt a byte inside the body of the frame at physical offset 1024
    let files: Vec<commitlog::mapped::MappedFile> = log.mapped_file_queue.mapped_files
        .iter()
        .map(|f| {
            let mut data = f.data.clone();
            if f.file_from_offset == 1024 {
                data[100] ^= 0xFF;
            }
            commitlog::mapped::MappedFile::from_loaded(f.file_from_offset, data)
        })
        .collect();
    let mut fresh = new_log();
    assert!(fresh.load(files));
    let outcome = fresh.recover_normally(0);
    assert_eq!(outcome.process_offset, 1024);
    assert_eq!(fresh.get_confirm_offset(), 1024);
    assert_eq!(fresh.mapped_file_queue.flushed_where, 1024);
    assert_eq!(fresh.mapped_file_queue.committed_where, 1024);
    assert_eq!(fresh.mapped_file_queue.mapped_files[1].wrote_position, 0);
    assert_eq!(outcome.index_action, IndexAction::Keep);
}

#[test]
fn normal_recovery_twice_is_idempotent() {
    let mut log = new_log();
    for s in [300usize, 400, 300, 400] {
        log.put_message(msg_of_size(s, b"topicA", 0), 1000);
    }
    let o1 = log.recover_normally(0);
    let wrote1: Vec<usize> =
        log.mapped_file_queue.mapped_files.iter().map(|f| f.wrote_position).collect();
    let c1 = log.get_confirm_offset();
    let o2 = log.recover_normally(0);
    let wrote2: Vec<usize> =
        log.mapped_file_queue.mapped_files.iter().map(|f| f.wrote_position).collect();
    assert_eq!(o1.process_offset, o2.process_offset);
    assert_eq!(wrote1, wrote2);
    assert_eq!(c1, log.get_confirm_offset());
}

#[test]
fn abnormal_recovery_dispatches_intact_frames() {
    let mut log = new_log();
    for s in [300usize, 400, 300, 400, 300] {
        log.put_message(msg_of_size(s, b"topicA", 0), 50);
    }
    // the checkpoint vouches for nothing this young: replay from segment 0
    log.store_checkpoint.min_timestamp = 10;
    let outcome = log.recover_abnormally(0);
    assert_eq!(outcome.dispatched.len(), 5);
    for d in &outcome.dispatched {
        assert!(d.success);
        assert!(d.msg_size > 0);
        assert_eq!(d.topic, b"topicA".to_vec());
    }
    assert_eq!(outcome.process_offset, log.get_max_offset());
}

#[test]
fn abnormal_recovery_starts_at_first_vouched_segment() {
    let mut log = new_log();
    for s in [300usize, 400, 300, 400, 300] {
        log.put_message(msg_of_size(s, b"topicA", 0), 50);
    }
    // every segment's first frame is stamped at or before the checkpoint's
    // minimum: the backwards walk stops at the newest segment
    log.store_checkpoint.min_timestamp = 100;
    let outcome = log.recover_abnormally(0);
    assert_eq!(outcome.dispatched.len(), 2);
    assert_eq!(outcome.process_offset, log.get_max_offset());
}

#[test]
fn empty_directory_recovery_asks_for_reload() {
    let mut log = new_log();
    let outcome = log.recover_normally(0);
    assert_eq!(outcome.index_action, IndexAction::DestroyAndReload);
    assert_eq!(log.mapped_file_queue.flushed_where, 0);
    assert_eq!(log.mapped_file_queue.committed_where, 0);
}

#[test]
fn properties_encoding_round_trips() {
    let props = vec![
        Property { key: b"KEYS".to_vec(), value: b"a b".to_vec() },
        Property { key: b"TAGS".to_vec(), value: b"tagX".to_vec() },
    ];
    let encoded = commitlog::props::encode_properties(&props);
    assert_eq!(encoded, b"KEYS\x01a b\x02TAGS\x01tagX\x02".to_vec());
    let parsed = commitlog::props::parse_properties(&encoded);
    assert_eq!(parsed.len(), 2);
    assert_eq!(parsed[0].key, b"KEYS".to_vec());
    assert_eq!(parsed[0].value, b"a b".to_vec());
    assert_eq!(parsed[1].key, b"TAGS".to_vec());
    assert_eq!(parsed[1].value, b"tagX".to_vec());
}

#[test]
fn blank_sentinel_decodes_as_end_of_segment() {
    let frame = vec![0u8, 0, 0, 24, 0xCB, 0xD4, 0x31, 0x94];
    let d = commitlog::codec::check_message_and_return_size(
        &frame,
        true,
        false,
        true,
        &test_config(),
    );
    assert!(d.success);
    assert_eq!(d.msg_size, 0);
}

#[test]
fn length_mismatch_reports_claimed_size() {
    let mut log = new_log();
    log.put_message(msg_of_size(300, b"topicA", 0), 1000);
    let seg = &log.mapped_file_queue.mapped_files[0];
    let mut frame = seg.data[0..300].to_vec();
    // claim a different total size: lengths no longer agree
    frame[3] = 45; // totalSize 301
    let d = commitlog::codec::check_message_and_return_size(
        &frame,
        false,
        false,
        true,
        &test_config(),
    );
    assert!(!d.success);
    assert_eq!(d.msg_size, 301);
}

#[test]
fn create_mapped_file_failed_when_address_space_ends() {
    // one full segment whose successor's base would not fit an i64
    let base: u64 = (i64::MAX as u64) + 1 - 2048;
    assert_eq!(base % 1024, 0);
    let file = commitlog::mapped::MappedFile::from_loaded(base, vec![0u8; 1024]);
    let mut log = new_log();
    assert!(log.load(vec![file]));
    let r = log.put_message(msg_of_size(300, b"topicA", 0), 1000);
    assert_eq!(r.put_message_status, PutMessageStatus::CreateMappedFileFailed);
}

#[test]
fn dup_info_shape_is_enforced_when_asked() {
    let mut log = new_log();
    let mut good = msg_of_size(300, b"topicA", 0);
    good.properties.push(Property { key: b"DUP_INFO".to_vec(), value: b"7_21".to_vec() });
    log.put_message(good, 1000);
    let wrote = log.mapped_file_queue.mapped_files[0].wrote_position;
    let frame = log.mapped_file_queue.mapped_files[0].data[0..wrote].to_vec();
    let d = commitlog::codec::check_message_and_return_size(
        &frame,
        true,
        true,
        true,
        &test_config(),
    );
    assert!(d.success);

    let mut bad = msg_of_size(300, b"topicB", 0);
    bad.properties.push(Property { key: b"DUP_INFO".to_vec(), value: b"7-21".to_vec() });
    let mut log2 = new_log();
    log2.put_message(bad, 1000);
    let wrote = log2.mapped_file_queue.mapped_files[0].wrote_position;
    let frame = log2.mapped_file_queue.mapped_files[0].data[0..wrote].to_vec();
    let d = commitlog::codec::check_message_and_return_size(
        &frame,
        true,
        true,
        true,
        &test_config(),
    );
    assert!(!d.success);
    assert_eq!(d.msg_size, -1);
}

#[test]
fn v2_frames_carry_long_topics_and_ipv6_hosts() {
    let mut config = test_config();
    config.auto_message_version_on_topic_len = true;
    config.max_message_size = 1000;
    let mut log = CommitLog::new(config, test_broker(), test_checkpoint());
    let topic = vec![b'x'; 200];
    let mut m = Message {
        topic: topic.clone(),
        queue_id: 7,
        flag: 0,
        sys_flag: 16 | 32, // both hosts IPv6
        born_timestamp: 5,
        born_host: vec![1u8; 20],
        store_timestamp: 0,
        store_host: vec![2u8; 20],
        reconsume_times: 3,
        prepared_transaction_offset: 0,
        body: vec![9u8; 100],
        properties: Vec::new(),
        body_crc: 0,
        queue_offset: 0,
        version: MessageVersion::V1,
        wait_store_msg_ok: false,
    };
    m.properties.push(Property { key: b"TAGS".to_vec(), value: b"tagA".to_vec() });
    let r = log.put_message(m, 400);
    assert_eq!(r.put_message_status, PutMessageStatus::PutOk);
    let wrote = log.mapped_file_queue.mapped_files[0].wrote_position;
    let frame = log.mapped_file_queue.mapped_files[0].data[0..wrote].to_vec();
    // V2 magic: 0xDAA320A8
    assert_eq!(&frame[4..8], &[0xDA, 0xA3, 0x20, 0xA8]);
    let d = commitlog::codec::check_message_and_return_size(&frame, true, false, true, &config);
    assert!(d.success);
    assert_eq!(d.topic, topic);
    assert_eq!(d.born_host, vec![1u8; 20]);
    assert_eq!(d.store_host, vec![2u8; 20]);
    assert_eq!(d.reconsume_times, 3);
    // the tags code is the 32-bit string hash of "tagA"
    let expected = b"tagA".iter().fold(0u32, |h, b| h.wrapping_mul(31).wrapping_add(*b as u32));
    assert_eq!(d.tags_code, expected);
}

#[test]
fn abnormal_recovery_truncates_noise_tail() {
    let mut log = new_log();
    for s in [300usize, 400, 300] {
        log.put_message(msg_of_size(s, b"topicA", 0), 50);
    }
    // overwrite the bytes past the last frame with noise and reload as a
    // crashed store whose segment counts as fully written
    let mut data = log.mapped_file_queue.mapped_files[0].data.clone();
    for i in 1000..1024 {
        data[i] = 0xAB;
    }
    let mut crashed = new_log();
    assert!(crashed.load(vec![commitlog::mapped::MappedFile::from_loaded(0, data)]));
    crashed.store_checkpoint.min_timestamp = 10; // vouch for nothing: start at 0
    let outcome = crashed.recover_abnormally(0);
    assert_eq!(outcome.dispatched.len(), 3);
    assert_eq!(outcome.process_offset, 1000);
    assert_eq!(crashed.mapped_file_queue.mapped_files[0].wrote_position, 1000);
    assert_eq!(outcome.last_valid_offset, 700);
}

#[test]
fn min_offset_and_confirm_follow_the_log() {
    let mut log = new_log();
    assert_eq!(log.get_min_offset(), -1);
    log.put_message(msg_of_size(300, b"topicA", 0), 1000);
    assert_eq!(log.get_min_offset(), 0);
    assert_eq!(log.get_confirm_offset(), 300);
    log.set_confirm_offset(123);
    // non-duplication mode: the confirm offset is definitionally the max
    assert_eq!(log.get_confirm_offset(), 300);
    assert_eq!(log.store_checkpoint.confirm_phy_offset, 123);
}

#[test]
fn oversized_property_list_is_illegal() {
    let mut log = new_log();
    let mut m = msg_of_size(300, b"topicA", 0);
    m.properties.push(Property { key: b"K".to_vec(), value: vec![b'v'; 0x8000] });
    let r = log.put_message(m, 1000);
    assert_eq!(r.put_message_status, PutMessageStatus::MessageIllegal);
    assert_eq!(log.get_max_offset(), 0);
}

#[test]
fn engine_stamps_host_width_flags() {
    let mut log = new_log();
    let mut m = msg_of_size(300, b"topicA", 0);
    // IPv6 producer address, but the producer left the width bits unset
    m.born_host = vec![3u8; 20];
    m.sys_flag = 0;
    let r = log.put_message(m, 1000);
    assert_eq!(r.put_message_status, PutMessageStatus::PutOk);
    let wrote = log.mapped_file_queue.mapped_files[0].wrote_position;
    let frame = log.mapped_file_queue.mapped_files[0].data[0..wrote].to_vec();
    let d = commitlog::codec::check_message_and_return_size(
        &frame,
        true,
        false,
        true,
        &test_config(),
    );
    assert!(d.success);
    assert_eq!(d.sys_flag, 16); // BORNHOST_V6_FLAG set by the engine
    assert_eq!(d.born_host, vec![3u8; 20]);
    assert_eq!(d.store_host, vec![0u8; 8]);
}
