//! The commit log: the single-writer append engine assigning monotonic
//! physical offsets and per-queue logical offsets, the confirm offset, and
//! the query API over the segmented log.

use vstd::prelude::*;
use crate::codec::{cal_msg_length, encode_message, spec_cal_msg_length, spec_frame,
    spec_total_size};
use crate::crc::{crc32, crc32_of};
use crate::mapped::{MappedFile, MappedFileQueue};
use crate::message::{
    BrokerConfig, BrokerRole, CQType, Message, MessageStoreConfig, MessageVersion,
    AppendMessageResult, AppendMessageStatus, PutMessageResult, PutMessageStatus, TopicConfig,
};
use crate::props::{
    bytes_eq, delete_property, encode_props, pairs_wf, props_view, remove_key, lemma_remove_key_wf,
};
use crate::queue_table::QueueOffsetTable;
use crate::sysflag::{advances_queue, spec_advances_queue, spec_born_host_len,
    spec_store_host_len};

verus! {

/// The durable checkpoint the log consults and updates: the earliest
/// trustworthy timestamps and the persisted confirm offset.
#[derive(Clone, Copy, PartialEq, Eq, Structural, Debug)]
pub struct StoreCheckpoint {
    pub min_timestamp: u64,
    pub min_timestamp_index: u64,
    pub confirm_phy_offset: u64,
}

/// A view of one segment's written bytes from a requested position.
pub struct SelectMappedBufferResult {
    /// Physical offset of the first byte of `bytes`.
    pub start_offset: u64,
    /// Number of bytes returned.
    pub size: u32,
    /// The bytes from the requested position to the wrote position.
    pub bytes: Vec<u8>,
}

/// One (topic, config) row of the topic configuration table.
pub struct TopicEntry {
    pub topic: Vec<u8>,
    pub config: TopicConfig,
}

/// The append-only physical log of serialized messages.
pub struct CommitLog {
    pub message_store_config: MessageStoreConfig,
    pub broker_config: BrokerConfig,
    /// Keep the per-property CRC property on messages.
    pub enabled_append_prop_crc: bool,
    pub mapped_file_queue: MappedFileQueue,
    /// Explicitly tracked confirm offset; -1 until recovery sets it.
    pub confirm_offset: i64,
    pub store_checkpoint: StoreCheckpoint,
    /// The consume-queue store's per-(topic, queueId) counters.
    pub queue_offsets: QueueOffsetTable,
    pub topic_config_table: Vec<TopicEntry>,
}

/// The properties a message carries after the append engine's stamping:
/// unchanged, or with the per-property CRC property removed.
pub open spec fn spec_stamped_props(m: Message, enabled_append_prop_crc: bool) -> Seq<
    (Seq<u8>, Seq<u8>),
> {
    if enabled_append_prop_crc {
        props_view(m.properties@)
    } else {
        remove_key(props_view(m.properties@), crate::message::spec_property_crc32())
    }
}

impl Message {
    /// A message a producer may submit: hosts are raw 8- or 20-byte
    /// address-plus-port fields, the topic fits its length field, and the
    /// properties are encodable. Oversized bodies and property lists are
    /// not excluded here: the append engine rejects them as illegal.
    pub open spec fn submit_wf(self) -> bool {
        &&& (self.born_host@.len() == 8 || self.born_host@.len() == 20)
        &&& (self.store_host@.len() == 8 || self.store_host@.len() == 20)
        &&& self.topic@.len() <= 0xFFFF
        &&& pairs_wf(props_view(self.properties@))
    }
}

impl CommitLog {
    /// A healthy log: configuration and segment list are well formed, and
    /// the modes this implementation rejects at startup stay off.
    pub open spec fn wf(self) -> bool {
        &&& self.message_store_config.wf()
        &&& self.mapped_file_queue.wf()
        &&& self.mapped_file_queue.mapped_file_size
            == self.message_store_config.mapped_file_size_commit_log
        &&& !self.broker_config.enable_controller_mode
        &&& !self.broker_config.enable_slave_acting_master
    }

    /// A new, empty commit log. The controller and slave-acting-master
    /// modes have no high-availability engine here and are rejected at
    /// startup, not at put time.
    pub fn new(
        message_store_config: MessageStoreConfig,
        broker_config: BrokerConfig,
        store_checkpoint: StoreCheckpoint,
    ) -> (r: CommitLog)
        requires
            message_store_config.wf(),
            !broker_config.enable_controller_mode,
            !broker_config.enable_slave_acting_master,
        ensures
            r.wf(),
            r.message_store_config == message_store_config,
            r.broker_config == broker_config,
            r.store_checkpoint == store_checkpoint,
            r.confirm_offset == -1,
            r.mapped_file_queue.mapped_files@.len() == 0,
            r.enabled_append_prop_crc == message_store_config.enabled_append_prop_crc,
            r.queue_offsets.view_map() == Map::<(Seq<u8>, u32), u64>::empty(),
    {
        CommitLog {
            message_store_config,
            broker_config,
            enabled_append_prop_crc: message_store_config.enabled_append_prop_crc,
            mapped_file_queue: MappedFileQueue::new(
                message_store_config.mapped_file_size_commit_log,
            ),
            confirm_offset: -1,
            store_checkpoint,
            queue_offsets: QueueOffsetTable::new(),
            topic_config_table: Vec::new(),
        }
    }

    /// Adopt segments loaded from durable storage.
    pub fn load(&mut self, loaded: Vec<MappedFile>) -> (r: bool)
        requires
            old(self).wf(),
            old(self).mapped_file_queue.mapped_files@.len() == 0,
        ensures
            final(self).wf(),
            r == MappedFileQueue::spec_loadable(
                loaded@,
                old(self).message_store_config.mapped_file_size_commit_log,
            ),
            r ==> final(self).mapped_file_queue.mapped_files@ == loaded@,
            !r ==> final(self).mapped_file_queue.mapped_files@.len() == 0,
            (CommitLog { mapped_file_queue: old(self).mapped_file_queue, ..*final(self) }) == *old(self),
    {
        self.mapped_file_queue.load(loaded)
    }

    /// Nothing to release in this in-memory model.
    pub fn shutdown(&mut self) {
    }

    /// Nothing to release in this in-memory model.
    pub fn destroy(&mut self) {
    }

    /// Record a new confirm offset in memory and in the checkpoint.
    pub fn set_confirm_offset(&mut self, phy_offset: i64)
        ensures
            *final(self) == (CommitLog {
                confirm_offset: phy_offset,
                store_checkpoint: StoreCheckpoint {
                    confirm_phy_offset: phy_offset as u64,
                    ..old(self).store_checkpoint
                },
                ..*old(self)
            }),
    {
        self.confirm_offset = phy_offset;
        self.store_checkpoint.confirm_phy_offset = phy_offset as u64;
    }

    /// The newest confirm offset: the explicitly tracked one in
    /// duplication mode, else the log's maximum offset.
    pub fn get_confirm_offset(&self) -> (r: i64)
        requires
            self.wf(),
        ensures
            r == if self.broker_config.duplication_enable {
                self.confirm_offset as int
            } else {
                self.mapped_file_queue.spec_max_offset()
            },
    {
        if self.broker_config.duplication_enable {
            return self.confirm_offset;
        }
        self.get_max_offset() as i64
    }

    /// Highest physical offset the log covers.
    pub fn get_max_offset(&self) -> (r: u64)
        requires
            self.wf(),
        ensures
            r == self.mapped_file_queue.spec_max_offset(),
    {
        self.mapped_file_queue.get_max_offset()
    }

    /// Lowest physical offset the log covers: the first segment's base, the
    /// next segment boundary when that segment is gone, or -1 when empty.
    #[verifier::rlimit(30)]
    pub fn get_min_offset(&self) -> (r: i64)
        requires
            self.wf(),
        ensures
            r == (if self.mapped_file_queue.mapped_files@.len() == 0 {
                -1
            } else if self.mapped_file_queue.mapped_files@[0].available {
                self.mapped_file_queue.mapped_files@[0].file_from_offset as int
            } else {
                self.mapped_file_queue.mapped_files@[0].file_from_offset as int
                    + self.message_store_config.mapped_file_size_commit_log
            }),
    {
        proof {
            let q = self.mapped_file_queue;
            if q.mapped_files@.len() > 0 {
                let n = q.mapped_files@.len() as int;
                q.lemma_ffo_linear(n - 1);
                assert((n - 1) * q.mapped_file_size >= 0) by (nonlinear_arith)
                    requires
                        n >= 1,
                        q.mapped_file_size >= 8,
                ;
                assert(q.mapped_files@[0].file_from_offset
                    <= q.mapped_files@.last().file_from_offset);
            }
        }
        match self.mapped_file_queue.get_first_mapped_file() {
            None => -1,
            Some(mapped_file) => {
                if mapped_file.is_available() {
                    mapped_file.get_file_from_offset() as i64
                } else {
                    proof {
                        assert(self.mapped_file_queue.mapped_files@[0].file_from_offset % (
                        self.mapped_file_queue.mapped_file_size as u64) == 0);
                        vstd::arithmetic::div_mod::lemma_mod_self_0(
                            self.mapped_file_queue.mapped_file_size as int,
                        );
                        if self.mapped_file_queue.mapped_files@.len() > 1 {
                            assert(self.mapped_file_queue.mapped_files@[1].file_from_offset
                                == self.mapped_file_queue.mapped_files@[0].file_from_offset
                                + self.mapped_file_queue.mapped_file_size);
                        }
                    }
                    self.roll_next_file(mapped_file.get_file_from_offset() as i64)
                }
            },
        }
    }

    /// The first segment boundary strictly past `offset`.
    pub fn roll_next_file(&self, offset: i64) -> (r: i64)
        requires
            self.wf(),
            0 <= offset,
            offset + self.message_store_config.mapped_file_size_commit_log <= i64::MAX,
        ensures
            r == offset + self.message_store_config.mapped_file_size_commit_log - (offset as int % (
            self.message_store_config.mapped_file_size_commit_log as int)),
            r as int % (self.message_store_config.mapped_file_size_commit_log as int) == 0,
            r > offset,
    {
        let mapped_file_size = self.message_store_config.mapped_file_size_commit_log as i64;
        proof {
            let o = offset as int;
            let fs = mapped_file_size as int;
            vstd::arithmetic::div_mod::lemma_mod_bound(o, fs);
            vstd::arithmetic::div_mod::lemma_mod_twice(o, fs);
            vstd::arithmetic::div_mod::lemma_sub_mod_noop(o, o % fs, fs);
            vstd::arithmetic::div_mod::lemma_small_mod(0nat, fs as nat);
            assert((o - o % fs) % fs == 0);
            vstd::arithmetic::div_mod::lemma_add_mod_noop(o - o % fs, fs, fs);
            vstd::arithmetic::div_mod::lemma_mod_self_0(fs);
            assert((o + fs - o % fs) % fs == 0);
        }
        offset + mapped_file_size - (offset % mapped_file_size)
    }

    /// A read of one segment: its bytes from the requested position up to
    /// the wrote position, with where they start in the physical log.
    /// Equivalent to `get_data_with_option(offset, offset == 0)`.
    pub fn get_data(&self, offset: i64) -> (r: Option<SelectMappedBufferResult>)
        requires
            self.wf(),
            offset >= 0,
        ensures
            spec_get_data_post(*self, offset, offset == 0, r),
    {
        self.get_data_with_option(offset, offset == 0)
    }

    /// A read of one segment, optionally falling back to the first segment
    /// when no segment covers `offset`: `Some` exactly when a target
    /// segment exists and `offset % fileSize` is within its written bytes,
    /// and then the view is of that segment.
    pub fn get_data_with_option(&self, offset: i64, return_first_on_not_found: bool) -> (r:
        Option<SelectMappedBufferResult>)
        requires
            self.wf(),
            offset >= 0,
        ensures
            spec_get_data_post(*self, offset, return_first_on_not_found, r),
    {
        let idx = match self.mapped_file_queue.find_mapped_file_by_offset(
            offset as u64,
            return_first_on_not_found,
        ) {
            None => {
                return None;
            },
            Some(i) => i,
        };
        let fsz = self.message_store_config.mapped_file_size_commit_log;
        proof {
            assert(self.mapped_file_queue.mapped_files@[idx as int].wf(fsz));
            vstd::arithmetic::div_mod::lemma_mod_bound(offset as int, fsz as int);
        }
        let f = &self.mapped_file_queue.mapped_files[idx];
        let pos = (offset % fsz as i64) as usize;
        if pos > f.get_wrote_position() {
            return None;
        }
        let bytes = crate::props::copy_range(&f.data, pos, f.get_wrote_position());
        proof {
            if self.mapped_file_queue.mapped_files@.len() > 0 {
                let q = self.mapped_file_queue;
                let n = q.mapped_files@.len() as int;
                q.lemma_ffo_linear(idx as int);
                q.lemma_ffo_linear(n - 1);
                assert(idx as int * fsz <= (n - 1) * fsz) by (nonlinear_arith)
                    requires
                        0 <= idx as int <= n - 1,
                        fsz > 0,
                ;
            }
        }
        Some(
            SelectMappedBufferResult {
                start_offset: f.get_file_from_offset() + pos as u64,
                size: bytes.len() as u32,
                bytes,
            },
        )
    }

    /// Verify the segment list's consecutive-offset invariant at run time.
    pub fn check_self(&self) -> (r: bool)
        requires
            self.wf(),
        ensures
            r,
    {
        let n = self.mapped_file_queue.len();
        let fsz = self.message_store_config.mapped_file_size_commit_log;
        let mut i: usize = 1;
        while i < n
            invariant
                self.wf(),
                fsz == self.message_store_config.mapped_file_size_commit_log,
                n == self.mapped_file_queue.mapped_files@.len(),
                1 <= i,
            decreases n - i,
        {
            proof {
                assert(self.mapped_file_queue.mapped_files@[i as int].file_from_offset
                    == self.mapped_file_queue.mapped_files@[i - 1].file_from_offset + fsz);
            }
            if self.mapped_file_queue.mapped_files[i].get_file_from_offset()
                != self.mapped_file_queue.mapped_files[i - 1].get_file_from_offset()
                    + fsz as u64 {
                return false;
            }
            i = i + 1;
        }
        true
    }

    /// Whether a message is a multi-dispatch one: it carries a non-empty
    /// inner-multi-dispatch property and its topic is a retry-group topic.
    pub fn is_multi_dispatch_msg(msg_inner: &Message) -> (r: bool)
        ensures
            r == ({
                let p = crate::props::lookup(
                    props_view(msg_inner.properties@),
                    crate::message::spec_property_inner_multi_dispatch(),
                );
                &&& p is Some
                &&& p.unwrap().len() > 0
                &&& crate::message::spec_starts_with(
                    msg_inner.topic@,
                    crate::message::spec_retry_group_topic_prefix(),
                )
            }),
    {
        crate::message::is_multi_dispatch_msg(msg_inner)
    }

    /// Whether this append must wait for replica acknowledgement.
    pub fn need_handle_ha(&self, msg_inner: &Message) -> (r: bool)
        ensures
            r == (msg_inner.wait_store_msg_ok && !self.message_store_config.duplication_enable
                && self.message_store_config.broker_role == BrokerRole::SyncMaster),
    {
        if !msg_inner.wait_store_msg_ok {
            return false;
        }
        if self.message_store_config.duplication_enable {
            return false;
        }
        if self.message_store_config.broker_role != BrokerRole::SyncMaster {
            return false;
        }
        true
    }

    /// Post-append hook for the disk-flush and replication collaborator.
    /// That engine is outside this log; the append is already durable to
    /// the mapped region, and the result is returned as produced.
    pub fn handle_disk_flush_and_ha(
        &self,
        put_message_result: PutMessageResult,
        _msg: Message,
        _need_ack_nums: u32,
        _need_handle_ha: bool,
    ) -> (r: PutMessageResult)
        ensures
            r == put_message_result,
    {
        put_message_result
    }

    /// The configuration of a topic, if the table holds one.
    pub fn find_topic_config(&self, topic: &Vec<u8>) -> (r: Option<TopicConfig>)
        ensures
            r == spec_find_topic_config(self.topic_config_table@, topic@),
    {
        let n = self.topic_config_table.len();
        let mut i: usize = n;
        proof {
            assert(self.topic_config_table@.take(n as int) =~= self.topic_config_table@);
        }
        while i > 0
            invariant
                0 <= i <= n == self.topic_config_table@.len(),
                spec_find_topic_config(self.topic_config_table@, topic@)
                    == spec_find_topic_config(self.topic_config_table@.take(i as int), topic@),
            decreases i,
        {
            i = i - 1;
            proof {
                assert(self.topic_config_table@.take(i + 1).drop_last()
                    =~= self.topic_config_table@.take(i as int));
                assert(self.topic_config_table@.take(i + 1).last()
                    == self.topic_config_table@[i as int]);
            }
            let e = &self.topic_config_table[i];
            if bytes_eq(&e.topic, topic) {
                return Some(e.config);
            }
        }
        proof {
            assert(self.topic_config_table@.take(0) =~= Seq::<TopicEntry>::empty());
        }
        None
    }

    /// Register or replace the configuration of a topic.
    pub fn put_topic_config(&mut self, topic: Vec<u8>, config: TopicConfig)
        ensures
            spec_find_topic_config(final(self).topic_config_table@, topic@) == Some(config),
            (CommitLog { topic_config_table: old(self).topic_config_table, ..*final(self) })
                == *old(self),
    {
        let ghost pre = self.topic_config_table@;
        self.topic_config_table.push(TopicEntry { topic, config });
        proof {
            assert(self.topic_config_table@.drop_last() =~= pre);
        }
    }

    /// Stamp the assigned logical queue offset on ordinary and
    /// transaction-commit messages; half and rollback messages keep theirs.
    pub fn assign_offset(&self, msg: &mut Message)
        ensures
            *final(msg) == (Message {
                queue_offset: if spec_advances_queue(old(msg).sys_flag) {
                    self.queue_offsets.spec_offset_of(old(msg).topic@, old(msg).queue_id)
                } else {
                    old(msg).queue_offset
                },
                ..*old(msg)
            }),
    {
        if advances_queue(msg.sys_flag) {
            msg.queue_offset = self.queue_offsets.get_offset(&msg.topic, msg.queue_id);
        }
    }

    /// Advance the logical queue counter by the message's slot count, for
    /// ordinary and transaction-commit messages only.
    pub fn increase_offset(&mut self, msg: &Message, message_num: u32)
        ensures
            (CommitLog { queue_offsets: old(self).queue_offsets, ..*final(self) }) == *old(self),
            (if spec_advances_queue(msg.sys_flag) {
                final(self).queue_offsets.view_map() == old(self).queue_offsets.view_map().insert(
                    (msg.topic@, msg.queue_id),
                    (if old(self).queue_offsets.spec_offset_of(msg.topic@, msg.queue_id)
                        + message_num <= u64::MAX {
                        (old(self).queue_offsets.spec_offset_of(msg.topic@, msg.queue_id)
                            + message_num) as u64
                    } else {
                        u64::MAX
                    }),
                )
            } else {
                final(self).queue_offsets == old(self).queue_offsets
            }),
    {
        if advances_queue(msg.sys_flag) {
            self.queue_offsets.increase_offset(&msg.topic, msg.queue_id, message_num);
        }
    }
}

/// The frame version the append engine picks for a message.
pub open spec fn spec_put_version(m: Message, config: MessageStoreConfig) -> MessageVersion {
    if config.auto_message_version_on_topic_len && m.topic@.len() > 127 {
        MessageVersion::V2
    } else {
        MessageVersion::V1
    }
}

/// The total frame size the append engine will produce for a message,
/// with the host widths taken from the hosts themselves (the engine stamps
/// the width bits to match).
pub open spec fn spec_put_total(
    m: Message,
    config: MessageStoreConfig,
    enabled_append_prop_crc: bool,
) -> int {
    72 + m.born_host@.len() + m.store_host@.len() + m.body@.len()
        + crate::codec::spec_topic_len_width(spec_put_version(m, config)) + m.topic@.len() + 2
        + encode_props(spec_stamped_props(m, enabled_append_prop_crc)).len()
}

/// A message the append engine rejects as illegal: its properties overflow
/// their 15-bit length field, or its frame exceeds the message size cap.
pub open spec fn spec_put_illegal(
    m: Message,
    config: MessageStoreConfig,
    enabled_append_prop_crc: bool,
) -> bool {
    ||| encode_props(spec_stamped_props(m, enabled_append_prop_crc)).len() > 0x7FFF
    ||| spec_put_total(m, config, enabled_append_prop_crc) > config.max_message_size
}

impl CommitLog {
    /// Append one message: stamp it, assign its logical offset, frame it,
    /// place the frame (padding and rolling the segment when it does not
    /// fit), and advance the queue counter.
    #[verifier::rlimit(100)]
    #[verifier::spinoff_prover]
    pub fn put_message(&mut self, msg: Message, now: u64) -> (r: PutMessageResult)
        requires
            old(self).wf(),
            msg.submit_wf(),
            msg.topic@.len() <= 127 || old(self).message_store_config.auto_message_version_on_topic_len,
        ensures
            final(self).wf(),
            final(self).message_store_config == old(self).message_store_config,
            final(self).broker_config == old(self).broker_config,
            final(self).store_checkpoint == old(self).store_checkpoint,
            final(self).confirm_offset == old(self).confirm_offset,
            final(self).enabled_append_prop_crc == old(self).enabled_append_prop_crc,
            final(self).topic_config_table@ == old(self).topic_config_table@,
            final(self).mapped_file_queue.spec_max_offset() >= old(self).mapped_file_queue.spec_max_offset(),
            r.put_message_status == PutMessageStatus::PutOk || r.put_message_status
                == PutMessageStatus::MessageIllegal || r.put_message_status
                == PutMessageStatus::CreateMappedFileFailed,
            r.put_message_status != PutMessageStatus::PutOk ==> final(self).queue_offsets == old(self).queue_offsets,
            (r.put_message_status == PutMessageStatus::MessageIllegal <==> spec_put_illegal(
                msg,
                old(self).message_store_config,
                old(self).enabled_append_prop_crc,
            )),
            (r.put_message_status == PutMessageStatus::PutOk <==> !spec_put_illegal(
                msg,
                old(self).message_store_config,
                old(self).enabled_append_prop_crc,
            ) && spec_can_place(
                old(self).mapped_file_queue,
                spec_put_total(
                    msg,
                    old(self).message_store_config,
                    old(self).enabled_append_prop_crc,
                ),
            )),
            (r.put_message_status == PutMessageStatus::CreateMappedFileFailed ==> !spec_can_place(
                old(self).mapped_file_queue,
                spec_put_total(
                    msg,
                    old(self).message_store_config,
                    old(self).enabled_append_prop_crc,
                ),
            )),
            r.put_message_status == PutMessageStatus::MessageIllegal ==> final(self).mapped_file_queue == old(self).mapped_file_queue,
            r.put_message_status == PutMessageStatus::PutOk ==> put_ok_post(
                *old(self),
                *final(self),
                msg,
                now,
                r,
            ),
    {
        let ghost pre = *old(self);
        let ghost msg0 = msg;
        let mut msg = stamp_message(
            msg,
            self.message_store_config.duplication_enable,
            self.enabled_append_prop_crc,
            self.message_store_config.auto_message_version_on_topic_len,
            now,
        );
        let need_ack_nums = self.message_store_config.in_sync_replicas;
        let need_handle_ha = self.need_handle_ha(&msg);
        let need_assign_offset = !(self.message_store_config.duplication_enable
            && self.message_store_config.broker_role != BrokerRole::Slave);
        if need_assign_offset {
            self.assign_offset(&mut msg);
        }
        if msg.body.len() > 0x4000_0000 {
            return PutMessageResult::new_default(PutMessageStatus::MessageIllegal);
        }
        let props_enc = crate::props::encode_properties(&msg.properties);
        if props_enc.len() > 0x7FFF {
            return PutMessageResult::new_default(PutMessageStatus::MessageIllegal);
        }
        let total = cal_msg_length(
            msg.version,
            msg.sys_flag,
            msg.body.len() as u32,
            msg.topic.len() as u32,
            props_enc.len() as u32,
        );
        if total > self.message_store_config.max_message_size {
            return PutMessageResult::new_default(PutMessageStatus::MessageIllegal);
        }
        let phys = match self.write_frame_placed(&msg, total) {
            None => {
                return PutMessageResult::new_default(PutMessageStatus::CreateMappedFileFailed);
            },
            Some(p) => p,
        };
        let ghost total_g = total;
        let result = AppendMessageResult {
            status: AppendMessageStatus::PutOk,
            wrote_offset: phys,
            wrote_bytes: total,
            logics_offset: msg.queue_offset,
            store_timestamp: msg.store_timestamp,
        };
        let tc = self.find_topic_config(&msg.topic);
        let message_num = match tc {
            Some(c) => crate::message::get_message_num(Some(&c), &msg),
            None => crate::message::get_message_num(None, &msg),
        };
        self.increase_offset(&msg, message_num);
        let put_result = PutMessageResult::new_append_result(
            PutMessageStatus::PutOk,
            Some(result),
        );
        proof {
            let lf = self.mapped_file_queue.mapped_files@.last();
            let ar = put_result.append_message_result.unwrap();
            assert(ar.wrote_offset == phys);
            assert(ar.wrote_bytes == total_g);
            assert(spec_frame(msg, ar.wrote_offset) == lf.data@.subrange(
                lf.wrote_position - ar.wrote_bytes,
                lf.wrote_position as int,
            ));
        }
        self.handle_disk_flush_and_ha(put_result, msg, need_ack_nums, need_handle_ha)
    }
}


/// Whether a frame of `total` bytes can be placed: the queue is empty (a
/// first segment is created at offset 0), or it fits the last segment with
/// room for the 8-byte sentinel, or a fresh segment's base still fits the
/// address space.
pub open spec fn spec_can_place(q: MappedFileQueue, total: int) -> bool {
    let fsz = q.mapped_file_size as int;
    ||| q.mapped_files@.len() == 0
    ||| (q.mapped_files@.last().wrote_position < fsz && total + 8 <= fsz
        - q.mapped_files@.last().wrote_position)
    ||| q.mapped_files@.last().file_from_offset + 2 * fsz <= i64::MAX
}

impl CommitLog {
    /// Place and write one encoded frame: use the last segment, padding and
    /// rolling it when the frame does not fit, and return the physical
    /// offset the frame was written at. `None` exactly when a fresh
    /// segment's base offset would not fit the address space.
    #[verifier::rlimit(100)]
    #[verifier::spinoff_prover]
    fn write_frame_placed(&mut self, msg: &Message, total: u32) -> (r: Option<u64>)
        requires
            old(self).wf(),
            msg.wf(),
            spec_total_size(*msg) == total,
            total <= old(self).message_store_config.max_message_size,
        ensures
            final(self).wf(),
            final(self).message_store_config == old(self).message_store_config,
            final(self).broker_config == old(self).broker_config,
            final(self).store_checkpoint == old(self).store_checkpoint,
            final(self).confirm_offset == old(self).confirm_offset,
            final(self).enabled_append_prop_crc == old(self).enabled_append_prop_crc,
            final(self).topic_config_table@ == old(self).topic_config_table@,
            final(self).queue_offsets == old(self).queue_offsets,
            final(self).mapped_file_queue.spec_max_offset() >= old(
                self,
            ).mapped_file_queue.spec_max_offset(),
            (r is Some <==> spec_can_place(old(self).mapped_file_queue, total as int)),
            match r {
                Some(phys) => ({
                    let q0 = old(self).mapped_file_queue;
                    let q1 = final(self).mapped_file_queue;
                    let lf = q1.mapped_files@.last();
                    let fsz = old(self).message_store_config.mapped_file_size_commit_log as int;
                    &&& q1.mapped_files@.len() > 0
                    &&& phys >= q0.spec_max_offset()
                    &&& q1.spec_max_offset() == phys + total
                    &&& phys == lf.file_from_offset + lf.wrote_position - total
                    &&& lf.data@.subrange(
                        lf.wrote_position - total,
                        lf.wrote_position as int,
                    ) == spec_frame(*msg, phys)
                    &&& (q0.mapped_files@.len() > 0 && q0.mapped_files@.last().wrote_position
                        < fsz ==> (if total + 8 <= fsz - q0.mapped_files@.last().wrote_position {
                        phys == q0.spec_max_offset()
                    } else {
                        let pf = q1.mapped_files@[q0.mapped_files@.len() - 1];
                        let ow = q0.mapped_files@.last().wrote_position as int;
                        &&& pf.wrote_position == fsz
                        &&& pf.data@.subrange(ow, ow + vstd::math::min(8, fsz - ow))
                            == crate::mapped::MappedFile::spec_padding(fsz - ow)
                        &&& phys == q0.mapped_files@.last().file_from_offset + fsz
                    }))
                    &&& (q0.mapped_files@.len() == 0 ==> phys == 0)
                    &&& (q0.mapped_files@.len() > 0 && q0.mapped_files@.last().wrote_position
                        == fsz ==> phys == q0.spec_max_offset())
                }),
                None => ({
                    let q0 = old(self).mapped_file_queue;
                    let fsz = old(self).message_store_config.mapped_file_size_commit_log as int;
                    &&& q0.mapped_files@.len() > 0
                    &&& (q0.mapped_files@.last().wrote_position == fsz ==> final(self).mapped_file_queue == q0)
                }),
            },
    {
        let idx0 = match self.mapped_file_queue.get_last_mapped_file_or_create(0) {
            None => {
                return None;
            },
            Some(i) => i,
        };
        let fsz = self.message_store_config.mapped_file_size_commit_log;
        let wrote = self.mapped_file_queue.mapped_files[idx0].get_wrote_position();
        if total as usize + 8 > fsz as usize - wrote {
            let mut f = match self.mapped_file_queue.mapped_files.pop() {
                Some(f) => f,
                None => {
                    proof {
                        assert(false);
                    }
                    return None;
                },
            };
            f.write_padding();
            let ghost popped = self.mapped_file_queue.mapped_files@;
            self.mapped_file_queue.mapped_files.push(f);
            proof {
                assert(self.mapped_file_queue.mapped_files@.drop_last() =~= popped);
                assert(self.mapped_file_queue.wf());
            }
            match self.mapped_file_queue.get_last_mapped_file_or_create(0) {
                None => {
                    return None;
                },
                Some(_) => {},
            }
        }
        let n = self.mapped_file_queue.mapped_files.len();
        proof {
            assert(n >= 1);
            assert(self.mapped_file_queue.mapped_files@[n - 1].wf(fsz));
        }
        let t_ffo = self.mapped_file_queue.mapped_files[n - 1].get_file_from_offset();
        let t_wrote = self.mapped_file_queue.mapped_files[n - 1].get_wrote_position();
        let phys = t_ffo + t_wrote as u64;
        let frame = match encode_message(msg, phys, &self.message_store_config) {
            Ok(v) => v,
            Err(_) => {
                proof {
                    assert(false);
                }
                return None;
            },
        };
        let mut f = match self.mapped_file_queue.mapped_files.pop() {
            Some(f) => f,
            None => {
                proof {
                    assert(false);
                }
                return None;
            },
        };
        f.write_frame(&frame);
        let ghost popped2 = self.mapped_file_queue.mapped_files@;
        self.mapped_file_queue.mapped_files.push(f);
        proof {
            assert(self.mapped_file_queue.mapped_files@.drop_last() =~= popped2);
            assert(self.mapped_file_queue.wf());
        }
        Some(phys)
    }
}


/// Stamp a submitted message as the append engine frames it: refresh the
/// store timestamp unless duplication mode keeps the producer's, compute
/// the body CRC, drop the per-property CRC property when it is disabled,
/// set the host-width `sysFlag` bits from the host address families, and
/// pick the frame version from the topic length.
fn stamp_message(
    msg: Message,
    duplication_enable: bool,
    enabled_append_prop_crc: bool,
    auto_version: bool,
    now: u64,
) -> (r: Message)
    requires
        msg.submit_wf(),
        msg.topic@.len() <= 127 || auto_version,
    ensures
        r.topic@ == msg.topic@,
        r.queue_id == msg.queue_id,
        r.flag == msg.flag,
        r.sys_flag == crate::sysflag::spec_stamped_sysflag(
            msg.sys_flag,
            msg.born_host@.len() as int,
            msg.store_host@.len() as int,
        ),
        spec_advances_queue(r.sys_flag) == spec_advances_queue(msg.sys_flag),
        (r.sys_flag & crate::sysflag::INNER_BATCH_FLAG) == (msg.sys_flag
            & crate::sysflag::INNER_BATCH_FLAG),
        spec_born_host_len(r.sys_flag) == msg.born_host@.len(),
        spec_store_host_len(r.sys_flag) == msg.store_host@.len(),
        r.born_timestamp == msg.born_timestamp,
        r.born_host@ == msg.born_host@,
        r.store_host@ == msg.store_host@,
        r.reconsume_times == msg.reconsume_times,
        r.prepared_transaction_offset == msg.prepared_transaction_offset,
        r.body@ == msg.body@,
        r.queue_offset == msg.queue_offset,
        r.wait_store_msg_ok == msg.wait_store_msg_ok,
        r.store_timestamp == (if duplication_enable {
            msg.store_timestamp
        } else {
            now
        }),
        r.body_crc == crc32_of(msg.body@),
        props_view(r.properties@) == spec_stamped_props(msg, enabled_append_prop_crc),
        r.version == (if auto_version && msg.topic@.len() > 127 {
            MessageVersion::V2
        } else {
            MessageVersion::V1
        }),
        (encode_props(spec_stamped_props(msg, enabled_append_prop_crc)).len() <= 0x7FFF
            && msg.body@.len() <= 0x4000_0000) ==> r.wf(),
        spec_total_size(r) == 72 + msg.born_host@.len() + msg.store_host@.len()
            + msg.body@.len() + (if auto_version && msg.topic@.len() > 127 {
            2int
        } else {
            1int
        }) + msg.topic@.len() + 2 + encode_props(
            spec_stamped_props(msg, enabled_append_prop_crc),
        ).len(),
{
    let mut msg = msg;
    let ghost f0 = msg.sys_flag;
    if msg.born_host.len() == 20 {
        msg.sys_flag = msg.sys_flag | crate::sysflag::BORNHOST_V6_FLAG;
    } else {
        msg.sys_flag = msg.sys_flag & !crate::sysflag::BORNHOST_V6_FLAG;
    }
    if msg.store_host.len() == 20 {
        msg.sys_flag = msg.sys_flag | crate::sysflag::STOREHOSTADDRESS_V6_FLAG;
    } else {
        msg.sys_flag = msg.sys_flag & !crate::sysflag::STOREHOSTADDRESS_V6_FLAG;
    }
    proof {
        crate::sysflag::lemma_stamped_sysflag(
            f0,
            msg.born_host@.len() as int,
            msg.store_host@.len() as int,
        );
    }
    if !duplication_enable {
        msg.store_timestamp = now;
    }
    msg.body_crc = crc32(&msg.body);
    if !enabled_append_prop_crc {
        proof {
            lemma_remove_key_wf(
                props_view(msg.properties@),
                crate::message::spec_property_crc32(),
            );
        }
        let k = crate::message::property_crc32();
        delete_property(&mut msg.properties, &k);
    }
    msg.version = MessageVersion::V1;
    if auto_version && msg.topic.len() > 127 {
        msg.version = MessageVersion::V2;
    }
    msg
}

/// What a successful append guarantees: the result describes a frame of
/// the stamped message, written whole at the reported offset in the last
/// segment; offsets are monotonic and contiguous but for the padding
/// sentinel; and the queue counter advances by the message's slot count.
pub open spec fn put_ok_post(
    pre: CommitLog,
    post: CommitLog,
    msg: Message,
    now: u64,
    r: PutMessageResult,
) -> bool {
    let ar = r.append_message_result.unwrap();
    let q0 = pre.mapped_file_queue;
    let q1 = post.mapped_file_queue;
    let lf = q1.mapped_files@.last();
    let fsz = pre.message_store_config.mapped_file_size_commit_log as int;
    let need_assign = !(pre.message_store_config.duplication_enable
        && pre.message_store_config.broker_role != BrokerRole::Slave);
    let assigned: u64 = if need_assign && spec_advances_queue(msg.sys_flag) {
        pre.queue_offsets.spec_offset_of(msg.topic@, msg.queue_id)
    } else {
        msg.queue_offset
    };
    let stamp_ts: u64 = if pre.message_store_config.duplication_enable {
        msg.store_timestamp
    } else {
        now
    };
    let props2 = spec_stamped_props(msg, pre.enabled_append_prop_crc);
    let cq = match spec_find_topic_config(pre.topic_config_table@, msg.topic@) {
        Some(tc) => tc.cq_type,
        None => CQType::SimpleCQ,
    };
    let mnum = crate::message::spec_message_num(msg.sys_flag, cq, props2);
    &&& r.append_message_result is Some
    &&& ar.status == AppendMessageStatus::PutOk
    &&& ar.logics_offset == assigned
    &&& ar.store_timestamp == stamp_ts
    &&& ar.wrote_bytes == spec_put_total(
        msg,
        pre.message_store_config,
        pre.enabled_append_prop_crc,
    )
    &&& ar.wrote_offset >= q0.spec_max_offset()
    &&& q1.mapped_files@.len() > 0
    &&& q1.spec_max_offset() == ar.wrote_offset + ar.wrote_bytes
    &&& ar.wrote_offset == lf.file_from_offset + lf.wrote_position - ar.wrote_bytes
    &&& (exists|m2: Message|
        {
            &&& #[trigger] spec_frame(m2, ar.wrote_offset) == lf.data@.subrange(
                lf.wrote_position - ar.wrote_bytes,
                lf.wrote_position as int,
            )
            &&& m2.wf()
            &&& m2.topic@ == msg.topic@
            &&& m2.queue_id == msg.queue_id
            &&& m2.flag == msg.flag
            &&& m2.sys_flag == crate::sysflag::spec_stamped_sysflag(
                msg.sys_flag,
                msg.born_host@.len() as int,
                msg.store_host@.len() as int,
            )
            &&& m2.born_timestamp == msg.born_timestamp
            &&& m2.born_host@ == msg.born_host@
            &&& m2.store_host@ == msg.store_host@
            &&& m2.reconsume_times == msg.reconsume_times
            &&& m2.prepared_transaction_offset == msg.prepared_transaction_offset
            &&& m2.body@ == msg.body@
            &&& m2.body_crc == crc32_of(msg.body@)
            &&& m2.store_timestamp == stamp_ts
            &&& m2.queue_offset == assigned
            &&& props_view(m2.properties@) == props2
            &&& m2.version == spec_put_version(msg, pre.message_store_config)
        })
    &&& (spec_advances_queue(msg.sys_flag) ==> post.queue_offsets.view_map()
        == pre.queue_offsets.view_map().insert(
        (msg.topic@, msg.queue_id),
        (if pre.queue_offsets.spec_offset_of(msg.topic@, msg.queue_id) + mnum <= u64::MAX {
            (pre.queue_offsets.spec_offset_of(msg.topic@, msg.queue_id) + mnum) as u64
        } else {
            u64::MAX
        }),
    ))
    &&& (!spec_advances_queue(msg.sys_flag) ==> post.queue_offsets == pre.queue_offsets)
    &&& (q0.mapped_files@.len() > 0 && q0.mapped_files@.last().wrote_position < fsz ==> (if ar.wrote_bytes
        + 8 <= fsz - q0.mapped_files@.last().wrote_position {
        ar.wrote_offset == q0.spec_max_offset()
    } else {
        let pf = q1.mapped_files@[q0.mapped_files@.len() - 1];
        let ow = q0.mapped_files@.last().wrote_position as int;
        &&& pf.wrote_position == fsz
        &&& pf.data@.subrange(ow, ow + vstd::math::min(8, fsz - ow))
            == crate::mapped::MappedFile::spec_padding(fsz - ow)
        &&& ar.wrote_offset == q0.mapped_files@.last().file_from_offset + fsz
    }))
    &&& (q0.mapped_files@.len() == 0 ==> ar.wrote_offset == 0)
    &&& (q0.mapped_files@.len() > 0 && q0.mapped_files@.last().wrote_position == fsz
        ==> ar.wrote_offset == q0.spec_max_offset())
}

/// What a segment read returns: the target segment is the one covering
/// `offset`, or the first segment as a fallback when asked; the read
/// succeeds exactly when a target exists and `offset % fileSize` is within
/// its written bytes, and then it is that segment's written tail.
pub open spec fn spec_get_data_post(
    log: CommitLog,
    offset: i64,
    return_first_on_not_found: bool,
    r: Option<SelectMappedBufferResult>,
) -> bool {
    let q = log.mapped_file_queue;
    let fsz = log.message_store_config.mapped_file_size_commit_log as int;
    let target: Option<int> = if q.spec_covers(offset as u64) {
        Some(q.spec_covering_index(offset as u64))
    } else if return_first_on_not_found && q.mapped_files@.len() > 0 {
        Some(0int)
    } else {
        None
    };
    match target {
        Some(i) => {
            let f = q.mapped_files@[i];
            let pos = offset as int % fsz;
            match r {
                Some(v) => {
                    &&& pos <= f.wrote_position
                    &&& v.start_offset == f.file_from_offset + pos
                    &&& v.bytes@ == f.data@.subrange(pos, f.wrote_position as int)
                    &&& v.size == v.bytes@.len()
                },
                None => pos > f.wrote_position,
            }
        },
        None => r is None,
    }
}

/// The configuration of a topic in an entry list; later entries win.
pub open spec fn spec_find_topic_config(t: Seq<TopicEntry>, topic: Seq<u8>) -> Option<TopicConfig>
    decreases t.len(),
{
    if t.len() == 0 {
        None
    } else if t.last().topic@ == topic {
        Some(t.last().config)
    } else {
        spec_find_topic_config(t.drop_last(), topic)
    }
}

} // verus!
