//! Crash recovery: stream frames through the decoder from a chosen start
//! segment, find the log's trustworthy end, truncate the torn tail, and
//! re-emit dispatch requests on abnormal restart.

use vstd::prelude::*;
use crate::codec::{check_message_and_return_size, MESSAGE_MAGIC_CODE_POSITION,
    SYSFLAG_POSITION};
use crate::commit_log::{CommitLog, StoreCheckpoint};
use crate::endian::{be_u32, be_u64};
use crate::mapped::{MappedFile, MappedFileQueue};
use crate::message::{DispatchRequest, MessageStoreConfig};
use crate::sysflag::{spec_born_host_len, BORNHOST_V6_FLAG};
use crate::{MESSAGE_MAGIC_CODE, MESSAGE_MAGIC_CODE_V2};

verus! {

/// What the index collaborator must do after recovery.
#[derive(Clone, Copy, PartialEq, Eq, Structural, Debug)]
pub enum IndexAction {
    /// The index is ahead of the log: truncate it to the offset.
    TruncateTo(u64),
    /// The log directory is empty: destroy the index and reload.
    DestroyAndReload,
    /// The index needs nothing.
    Keep,
}

/// The outcome of one recovery run.
pub struct RecoveryOutcome {
    /// First physical offset past the last trustworthy frame.
    pub process_offset: u64,
    /// Confirm offset recorded (start of the last valid frame).
    pub last_valid_offset: u64,
    /// Dispatch requests re-emitted for the index, in log order.
    pub dispatched: Vec<DispatchRequest>,
    /// What the index collaborator must do.
    pub index_action: IndexAction,
}

/// The length-prefixed frame size readable at `pos` of a segment: the
/// 4-byte prefix must lie below the wrote position and announce a size
/// within `[4, 0x7FFF_FFFF]` whose whole extent is written.
pub open spec fn spec_frame_size_at(f: MappedFile, pos: int) -> Option<int> {
    if pos + 4 > f.wrote_position {
        None
    } else {
        let s = be_u32(f.data@.subrange(pos, pos + 4)) as int;
        if s < 4 || s > 0x7FFF_FFFF || pos + s > f.wrote_position {
            None
        } else {
            Some(s)
        }
    }
}

impl CommitLog {
    /// Read the length-prefixed frame bytes at `position` of a segment:
    /// `None` exactly at the segment's written end or on a nonsensical or
    /// torn length prefix.
    pub fn get_simple_message_bytes(&self, position: usize, mapped_file: &MappedFile) -> (r: (
        Option<Vec<u8>>,
        usize,
    ))
        requires
            mapped_file.wrote_position <= mapped_file.data@.len(),
        ensures
            match spec_frame_size_at(*mapped_file, position as int) {
                Some(s) => match r.0 {
                    Some(v) => r.1 == s && v@ == mapped_file.data@.subrange(
                        position as int,
                        position + s,
                    ),
                    None => false,
                },
                None => r.0 is None && r.1 == 0,
            },
    {
        let bytes = mapped_file.get_bytes(position, 4);
        match bytes {
            None => (None, 0),
            Some(inner) => {
                let size = crate::endian::get_u32_be(&inner, 0);
                proof {
                    assert(inner@.subrange(0, 4) =~= inner@);
                }
                if size == 0 || size > 0x7FFF_FFFF {
                    return (None, 0);
                }
                if size < 4 {
                    return (None, 0);
                }
                match mapped_file.get_bytes(position, size as usize) {
                    None => (None, 0),
                    Some(v) => (Some(v), size as usize),
                }
            },
        }
    }

    /// Whether a segment is a trustworthy place to start abnormal recovery:
    /// its first frame carries a message magic code and a store timestamp
    /// no later than the checkpoint's minimum.
    pub fn is_mapped_file_matched_recover(&self, mapped_file: &MappedFile) -> (r: bool)
        requires
            mapped_file.wrote_position <= mapped_file.data@.len(),
        ensures
            r == spec_matched_recover(
                *mapped_file,
                self.message_store_config,
                self.store_checkpoint,
            ),
    {
        let magic = match mapped_file.get_bytes(MESSAGE_MAGIC_CODE_POSITION, 4) {
            None => {
                return false;
            },
            Some(v) => {
                proof {
                    assert(v@.subrange(0, 4) =~= v@);
                }
                crate::endian::get_u32_be(&v, 0)
            },
        };
        if magic != MESSAGE_MAGIC_CODE && magic != MESSAGE_MAGIC_CODE_V2 {
            return false;
        }
        let sys_flag = match mapped_file.get_bytes(SYSFLAG_POSITION, 4) {
            None => {
                return false;
            },
            Some(v) => {
                proof {
                    assert(v@.subrange(0, 4) =~= v@);
                }
                crate::endian::get_u32_be(&v, 0)
            },
        };
        let born_host_len: usize = if sys_flag & BORNHOST_V6_FLAG == 0 {
            8
        } else {
            20
        };
        let ts_pos = 48 + born_host_len;
        let store_timestamp = match mapped_file.get_bytes(ts_pos, 8) {
            None => {
                return false;
            },
            Some(v) => {
                proof {
                    assert(v@.subrange(0, 8) =~= v@);
                }
                crate::endian::get_u64_be(&v, 0)
            },
        };
        if store_timestamp == 0 {
            return false;
        }
        if self.message_store_config.message_index_enable
            && self.message_store_config.message_index_safe {
            store_timestamp <= self.store_checkpoint.min_timestamp_index
        } else {
            store_timestamp <= self.store_checkpoint.min_timestamp
        }
    }
}

/// Whether abnormal recovery may start at this segment: a message magic
/// code at its head, a non-zero store timestamp, and that timestamp within
/// what the checkpoint vouches for.
pub open spec fn spec_matched_recover(
    f: MappedFile,
    config: MessageStoreConfig,
    cp: StoreCheckpoint,
) -> bool {
    if f.wrote_position < 8 {
        false
    } else {
        let magic = be_u32(f.data@.subrange(4, 8));
        if magic != MESSAGE_MAGIC_CODE && magic != MESSAGE_MAGIC_CODE_V2 {
            false
        } else if f.wrote_position < 40 {
            false
        } else {
            let sys_flag = be_u32(f.data@.subrange(36, 40));
            let bh = spec_born_host_len(sys_flag) as int;
            if f.wrote_position < 48 + bh + 8 {
                false
            } else {
                let ts = be_u64(f.data@.subrange(48 + bh, 56 + bh));
                if ts == 0 {
                    false
                } else if config.message_index_enable && config.message_index_safe {
                    ts <= cp.min_timestamp_index
                } else {
                    ts <= cp.min_timestamp
                }
            }
        }
    }
}

/// The newest segment at or below `idx` the checkpoint vouches for, or
/// segment 0 when none matches: where the backwards walk of abnormal
/// recovery stops.
pub open spec fn spec_recover_start(
    files: Seq<MappedFile>,
    config: MessageStoreConfig,
    cp: StoreCheckpoint,
    idx: int,
) -> int
    decreases idx,
{
    if idx <= 0 {
        0
    } else if spec_matched_recover(files[idx], config, cp) {
        idx
    } else {
        spec_recover_start(files, config, cp, idx - 1)
    }
}

/// The verdict of one recovery walk over the segment list.
#[verifier::ext_equal]
pub ghost struct ScanResult {
    /// First physical offset past the last trustworthy frame.
    pub process_offset: int,
    /// Start of the last valid frame seen, or the walk's initial value.
    pub last_valid_offset: int,
    /// The parsed image of every frame the walk re-emits, in log order.
    pub dispatched: Seq<crate::message::FrameInfo>,
}

/// Whether a valid frame is re-emitted: always, unless a confirm bound is
/// set (duplication mode), and then only when the frame's recorded offset
/// plus its size stays within the bound.
pub open spec fn spec_emit(
    d: crate::message::FrameInfo,
    size: int,
    confirm_bound: Option<u64>,
) -> bool {
    match confirm_bound {
        None => true,
        Some(b) => d.commit_log_offset + size <= b,
    }
}

/// The recovery walk itself: from `(idx, pos)`, read the length-prefixed
/// frame, decode it, and either advance past a valid frame (recording its
/// start and, when emitted, its image), jump to the next segment at the
/// padding sentinel, or stop — at a failed decode, a torn or nonsensical
/// prefix, or the written end. `process_offset` is where the walk stops.
pub open spec fn spec_scan(
    files: Seq<MappedFile>,
    idx: int,
    pos: int,
    last_valid: int,
    check_crc: bool,
    check_dup: bool,
    confirm_bound: Option<u64>,
) -> ScanResult
    decreases
            files.len() - idx,
            (if 0 <= idx < files.len() {
                files[idx].wrote_position - pos
            } else {
                0int
            }),
{
    if !(0 <= idx < files.len()) || !(0 <= pos <= files[idx].wrote_position) {
        ScanResult { process_offset: 0, last_valid_offset: last_valid, dispatched: Seq::empty() }
    } else {
        let f = files[idx];
        match spec_frame_size_at(f, pos) {
            None => ScanResult {
                process_offset: f.file_from_offset + pos,
                last_valid_offset: last_valid,
                dispatched: Seq::empty(),
            },
            Some(s) => {
                let d = crate::codec::parse_frame(
                    f.data@.subrange(pos, pos + s),
                    check_crc,
                    check_dup,
                    true,
                );
                if d.success && d.msg_size > 0 {
                    let rest = spec_scan(
                        files,
                        idx,
                        pos + s,
                        f.file_from_offset + pos,
                        check_crc,
                        check_dup,
                        confirm_bound,
                    );
                    ScanResult {
                        process_offset: rest.process_offset,
                        last_valid_offset: rest.last_valid_offset,
                        dispatched: (if spec_emit(d, s, confirm_bound) {
                            seq![d]
                        } else {
                            Seq::empty()
                        }) + rest.dispatched,
                    }
                } else if d.success && d.msg_size == 0 {
                    if idx + 1 >= files.len() {
                        ScanResult {
                            process_offset: f.file_from_offset + pos,
                            last_valid_offset: last_valid,
                            dispatched: Seq::empty(),
                        }
                    } else {
                        spec_scan(files, idx + 1, 0, last_valid, check_crc, check_dup, confirm_bound)
                    }
                } else {
                    ScanResult {
                        process_offset: f.file_from_offset + pos,
                        last_valid_offset: last_valid,
                        dispatched: Seq::empty(),
                    }
                }
            },
        }
    }
}

/// The walk a recovery run performs on a non-empty log: normal recovery
/// replays the last three segments from the in-memory confirm offset;
/// abnormal recovery replays forward from the newest checkpoint-vouched
/// segment, bounding dispatch by the persisted confirm offset in
/// duplication mode.
pub open spec fn spec_recovery_scan(log: CommitLog, abnormal: bool) -> ScanResult {
    let files = log.mapped_file_queue.mapped_files@;
    let eff_crc = log.message_store_config.check_crc_on_recover
        && !log.message_store_config.force_verify_prop_crc;
    let dup = log.message_store_config.duplication_enable;
    let start: int = if abnormal {
        spec_recover_start(files, log.message_store_config, log.store_checkpoint, files.len() - 1)
    } else if files.len() > 3 {
        files.len() - 3
    } else {
        0
    };
    let init: int = if abnormal {
        files[start].file_from_offset as int
    } else if log.broker_config.duplication_enable {
        if log.confirm_offset >= 0 {
            log.confirm_offset as int
        } else {
            0
        }
    } else {
        log.mapped_file_queue.spec_max_offset()
    };
    let bound: Option<u64> = if abnormal && dup {
        if log.confirm_offset >= 0 {
            Some(log.confirm_offset as u64)
        } else {
            Some(0u64)
        }
    } else {
        None
    };
    spec_scan(files, start, 0, init, eff_crc, dup, bound)
}

impl CommitLog {
    /// Decode one frame for the recovery walk, with the store's CRC and
    /// duplication settings.
    fn decode_for_scan(&self, bytes: &Vec<u8>) -> (r: DispatchRequest)
        ensures
            r@ == crate::codec::parse_frame(
                bytes@,
                self.message_store_config.check_crc_on_recover
                    && !self.message_store_config.force_verify_prop_crc,
                self.message_store_config.duplication_enable,
                true,
            ),
            r@.success == r.success,
            r@.msg_size == r.msg_size as int,
    {
        check_message_and_return_size(
            bytes,
            self.message_store_config.check_crc_on_recover,
            self.message_store_config.duplication_enable,
            true,
            &self.message_store_config,
        )
    }

    /// Walk frames from segment `start_index`, validating each with the
    /// decoder. The results — where the trustworthy log ends, the start of
    /// its last valid frame, and (when `do_dispatch` is set) the re-emitted
    /// frames — equal the `spec_scan` walk over the segment list.
    #[verifier::rlimit(100)]
    #[verifier::spinoff_prover]
    fn scan_from(
        &self,
        start_index: usize,
        init_last_valid: u64,
        do_dispatch: bool,
        confirm_bound: Option<u64>,
    ) -> (r: (u64, u64, Vec<DispatchRequest>))
        requires
            self.wf(),
            start_index < self.mapped_file_queue.mapped_files@.len(),
            init_last_valid <= i64::MAX,
        ensures
            r.0 <= self.mapped_file_queue.spec_max_offset(),
            r.0 >= self.mapped_file_queue.mapped_files@[start_index as int].file_from_offset,
            r.1 <= i64::MAX,
            forall|i: int|
                0 <= i < r.2@.len() ==> (#[trigger] r.2@[i])@.success && r.2@[i]@.msg_size > 0,
            !do_dispatch ==> r.2@.len() == 0,
            ({
                let sr = spec_scan(
                    self.mapped_file_queue.mapped_files@,
                    start_index as int,
                    0,
                    init_last_valid as int,
                    self.message_store_config.check_crc_on_recover
                        && !self.message_store_config.force_verify_prop_crc,
                    self.message_store_config.duplication_enable,
                    confirm_bound,
                );
                &&& r.0 == sr.process_offset
                &&& r.1 == sr.last_valid_offset
                &&& (do_dispatch ==> r.2@.map_values(|d: DispatchRequest| d@) == sr.dispatched)
            }),
    {
        let ghost eff_crc = self.message_store_config.check_crc_on_recover
            && !self.message_store_config.force_verify_prop_crc;
        let ghost dup = self.message_store_config.duplication_enable;
        let ghost all_files = self.mapped_file_queue.mapped_files@;
        let ghost full = spec_scan(
            all_files,
            start_index as int,
            0,
            init_last_valid as int,
            eff_crc,
            dup,
            confirm_bound,
        );
        let mut index = start_index;
        let mut current_pos: usize = 0;
        let mut last_valid: u64 = init_last_valid;
        let mut dispatched: Vec<DispatchRequest> = Vec::new();
        let n = self.mapped_file_queue.mapped_files.len();
        let fsz = self.message_store_config.mapped_file_size_commit_log;
        proof {
            let q = self.mapped_file_queue;
            let files = q.mapped_files@;
            assert forall|i: int| 0 <= i < n implies (#[trigger] files[i]).file_from_offset
                + files[i].wrote_position <= q.spec_max_offset() && files[i].file_from_offset + fsz
                <= i64::MAX && (i >= start_index ==> files[i].file_from_offset
                >= files[start_index as int].file_from_offset) by {
                q.lemma_ffo_linear(i);
                q.lemma_ffo_linear(n - 1);
                q.lemma_ffo_linear(start_index as int);
                assert(i * fsz <= (n - 1) * fsz) by (nonlinear_arith)
                    requires
                        0 <= i <= n - 1,
                        fsz > 0,
                ;
                if i >= start_index {
                    assert(start_index as int * fsz <= i * fsz) by (nonlinear_arith)
                        requires
                            fsz > 0,
                            start_index as int <= i,
                    ;
                }
                assert(files[i].wf(fsz));
                if i < n - 1 {
                    assert(files[i].wrote_position == fsz);
                    assert((i + 1) * fsz <= (n - 1) * fsz) by (nonlinear_arith)
                        requires
                            i + 1 <= n - 1,
                            fsz > 0,
                    ;
                    assert(i * fsz + fsz == (i + 1) * fsz) by (nonlinear_arith);
                }
            }
            assert(dispatched@.map_values(|d: DispatchRequest| d@) =~= Seq::<
                crate::message::FrameInfo,
            >::empty());
            assert(Seq::<crate::message::FrameInfo>::empty() + full.dispatched =~= full.dispatched);
        }
        loop
            invariant
                self.wf(),
                all_files == self.mapped_file_queue.mapped_files@,
                n == all_files.len(),
                fsz == self.message_store_config.mapped_file_size_commit_log,
                eff_crc == (self.message_store_config.check_crc_on_recover
                    && !self.message_store_config.force_verify_prop_crc),
                dup == self.message_store_config.duplication_enable,
                full == spec_scan(
                    all_files,
                    start_index as int,
                    0,
                    init_last_valid as int,
                    eff_crc,
                    dup,
                    confirm_bound,
                ),
                start_index <= index < n,
                current_pos <= all_files[index as int].wrote_position,
                init_last_valid <= i64::MAX,
                last_valid == init_last_valid || last_valid <= all_files[
                    index as int
                ].file_from_offset + current_pos,
                forall|i: int|
                    0 <= i < n ==> (#[trigger] all_files[i]).file_from_offset + all_files[
                        i
                    ].wrote_position <= self.mapped_file_queue.spec_max_offset() && all_files[
                        i
                    ].file_from_offset + fsz <= i64::MAX && (i >= start_index ==> all_files[
                        i
                    ].file_from_offset >= all_files[start_index as int].file_from_offset),
                forall|i: int|
                    0 <= i < dispatched@.len() ==> (#[trigger] dispatched@[i])@.success
                        && dispatched@[i]@.msg_size > 0,
                !do_dispatch ==> dispatched@.len() == 0,
                ({
                    let cur = spec_scan(
                        all_files,
                        index as int,
                        current_pos as int,
                        last_valid as int,
                        eff_crc,
                        dup,
                        confirm_bound,
                    );
                    &&& full.process_offset == cur.process_offset
                    &&& full.last_valid_offset == cur.last_valid_offset
                    &&& (do_dispatch ==> full.dispatched == dispatched@.map_values(
                        |d: DispatchRequest| d@,
                    ) + cur.dispatched)
                }),
            decreases (n - index), (all_files[index as int].wrote_position - current_pos),
        {
            let ghost idx0 = index as int;
            let ghost pos0 = current_pos as int;
            let ghost lv0 = last_valid as int;
            let ghost cur0 = spec_scan(
                all_files,
                idx0,
                pos0,
                lv0,
                eff_crc,
                dup,
                confirm_bound,
            );
            proof {
                assert(all_files[index as int].wf(fsz));
            }
            let f = &self.mapped_file_queue.mapped_files[index];
            let (msg, size) = self.get_simple_message_bytes(current_pos, f);
            let msg_bytes = match msg {
                None => {
                    let process_offset = f.get_file_from_offset() + current_pos as u64;
                    proof {
                        assert(cur0.process_offset == process_offset);
                        if do_dispatch {
                            assert(full.dispatched =~= dispatched@.map_values(
                                |d: DispatchRequest| d@,
                            ));
                        }
                    }
                    return (process_offset, last_valid, dispatched);
                },
                Some(v) => v,
            };
            let dispatch_request = self.decode_for_scan(&msg_bytes);
            let ghost d_spec = crate::codec::parse_frame(
                all_files[idx0].data@.subrange(pos0, pos0 + size as int),
                eff_crc,
                dup,
                true,
            );
            proof {
                assert(dispatch_request@ == d_spec);
            }
            if dispatch_request.success && dispatch_request.msg_size > 0 {
                last_valid = f.get_file_from_offset() + current_pos as u64;
                if do_dispatch {
                    let emit = match confirm_bound {
                        None => true,
                        Some(bound) => {
                            dispatch_request.commit_log_offset
                                <= bound && bound - dispatch_request.commit_log_offset
                                >= size as u64
                        },
                    };
                    proof {
                        assert(emit == spec_emit(d_spec, size as int, confirm_bound));
                    }
                    if emit {
                        let ghost pre_dispatched = dispatched@;
                        dispatched.push(dispatch_request);
                        proof {
                            assert(dispatched@.map_values(|d: DispatchRequest| d@)
                                =~= pre_dispatched.map_values(|d: DispatchRequest| d@).push(
                                d_spec,
                            ));
                        }
                    }
                }
                current_pos = current_pos + size;
                proof {
                    let rest = spec_scan(
                        all_files,
                        idx0,
                        pos0 + size,
                        all_files[idx0].file_from_offset + pos0,
                        eff_crc,
                        dup,
                        confirm_bound,
                    );
                    assert(cur0.process_offset == rest.process_offset);
                    assert(cur0.dispatched == (if spec_emit(d_spec, size as int, confirm_bound) {
                        seq![d_spec]
                    } else {
                        Seq::<crate::message::FrameInfo>::empty()
                    }) + rest.dispatched);
                    if do_dispatch {
                        assert(full.dispatched =~= dispatched@.map_values(
                            |d: DispatchRequest| d@,
                        ) + rest.dispatched);
                    }
                }
            } else if dispatch_request.success && dispatch_request.msg_size == 0 {
                if index + 1 >= n {
                    let process_offset = f.get_file_from_offset() + current_pos as u64;
                    proof {
                        assert(cur0.process_offset == process_offset);
                        if do_dispatch {
                            assert(full.dispatched =~= dispatched@.map_values(
                                |d: DispatchRequest| d@,
                            ));
                        }
                    }
                    return (process_offset, last_valid, dispatched);
                }
                proof {
                    if last_valid != init_last_valid {
                        assert(all_files[index as int].wrote_position == fsz);
                        assert(all_files[index + 1].file_from_offset == all_files[
                            index as int
                        ].file_from_offset + fsz);
                    }
                }
                index = index + 1;
                current_pos = 0;
            } else {
                let process_offset = f.get_file_from_offset() + current_pos as u64;
                proof {
                    assert(cur0.process_offset == process_offset);
                    if do_dispatch {
                        assert(full.dispatched =~= dispatched@.map_values(
                            |d: DispatchRequest| d@,
                        ));
                    }
                }
                return (process_offset, last_valid, dispatched);
            }
        }
    }

    /// Normal recovery (clean shutdown presumed): replay the last three
    /// segments without dispatching, record the confirm offset, set both
    /// store positions to the end of the trustworthy log, and truncate
    /// everything past it.
    pub fn recover_normally(&mut self, max_phy_offset_of_consume_queue: i64) -> (r:
        RecoveryOutcome)
        requires
            old(self).wf(),
        ensures
            final(self).wf(),
            final(self).message_store_config == old(self).message_store_config,
            final(self).broker_config == old(self).broker_config,
            final(self).queue_offsets == old(self).queue_offsets,
            old(self).mapped_file_queue.mapped_files@.len() == 0 ==> ({
                &&& r.index_action == IndexAction::DestroyAndReload
                &&& final(self).mapped_file_queue.flushed_where == 0
                &&& final(self).mapped_file_queue.committed_where == 0
                &&& final(self).mapped_file_queue.mapped_files@ == old(
                    self,
                ).mapped_file_queue.mapped_files@
                &&& final(self).confirm_offset == old(self).confirm_offset
                &&& final(self).store_checkpoint == old(self).store_checkpoint
                &&& r.dispatched@.len() == 0
                &&& r.process_offset == 0
                &&& r.last_valid_offset == 0
            }),
            old(self).mapped_file_queue.mapped_files@.len() > 0 ==> ({
                let sr = spec_recovery_scan(*old(self), false);
                &&& r.process_offset <= old(self).mapped_file_queue.spec_max_offset()
                &&& r.process_offset == sr.process_offset
                &&& r.last_valid_offset == sr.last_valid_offset
                &&& final(self).mapped_file_queue.mapped_files@
                    == MappedFileQueue::truncate_view(
                    old(self).mapped_file_queue.mapped_files@,
                    r.process_offset,
                    old(self).message_store_config.mapped_file_size_commit_log,
                )
                &&& final(self).mapped_file_queue.flushed_where == r.process_offset
                &&& final(self).mapped_file_queue.committed_where == r.process_offset
                &&& final(self).confirm_offset == r.last_valid_offset
                &&& final(self).store_checkpoint.confirm_phy_offset == r.last_valid_offset
                &&& r.index_action == (if max_phy_offset_of_consume_queue >= r.process_offset {
                    IndexAction::TruncateTo(r.process_offset)
                } else {
                    IndexAction::Keep
                })
                &&& r.dispatched@.len() == 0
            }),
    {
        self.recover_walk(max_phy_offset_of_consume_queue, false)
    }

    /// Abnormal recovery (crash presumed): scan backwards for the first
    /// segment the checkpoint vouches for, then replay forward from it as
    /// in normal recovery but re-emitting a dispatch request per intact
    /// frame so the index can be rebuilt.
    pub fn recover_abnormally(&mut self, max_phy_offset_of_consume_queue: i64) -> (r:
        RecoveryOutcome)
        requires
            old(self).wf(),
        ensures
            final(self).wf(),
            forall|i: int|
                0 <= i < r.dispatched@.len() ==> (#[trigger] r.dispatched@[i])@.success
                    && r.dispatched@[i]@.msg_size > 0,
            final(self).message_store_config == old(self).message_store_config,
            final(self).broker_config == old(self).broker_config,
            final(self).queue_offsets == old(self).queue_offsets,
            old(self).mapped_file_queue.mapped_files@.len() == 0 ==> ({
                &&& r.index_action == IndexAction::DestroyAndReload
                &&& final(self).mapped_file_queue.flushed_where == 0
                &&& final(self).mapped_file_queue.committed_where == 0
                &&& final(self).mapped_file_queue.mapped_files@ == old(
                    self,
                ).mapped_file_queue.mapped_files@
                &&& final(self).confirm_offset == old(self).confirm_offset
                &&& final(self).store_checkpoint == old(self).store_checkpoint
                &&& r.dispatched@.len() == 0
                &&& r.process_offset == 0
                &&& r.last_valid_offset == 0
            }),
            old(self).mapped_file_queue.mapped_files@.len() > 0 ==> ({
                let sr = spec_recovery_scan(*old(self), true);
                &&& r.process_offset <= old(self).mapped_file_queue.spec_max_offset()
                &&& r.process_offset == sr.process_offset
                &&& r.last_valid_offset == sr.last_valid_offset
                &&& r.dispatched@.map_values(|d: DispatchRequest| d@) == sr.dispatched
                &&& final(self).mapped_file_queue.mapped_files@
                    == MappedFileQueue::truncate_view(
                    old(self).mapped_file_queue.mapped_files@,
                    r.process_offset,
                    old(self).message_store_config.mapped_file_size_commit_log,
                )
                &&& final(self).mapped_file_queue.flushed_where == r.process_offset
                &&& final(self).mapped_file_queue.committed_where == r.process_offset
                &&& final(self).confirm_offset == r.last_valid_offset
                &&& final(self).store_checkpoint.confirm_phy_offset == r.last_valid_offset
                &&& r.index_action == (if max_phy_offset_of_consume_queue >= r.process_offset {
                    IndexAction::TruncateTo(r.process_offset)
                } else {
                    IndexAction::Keep
                })
            }),
    {
        self.recover_walk(max_phy_offset_of_consume_queue, true)
    }

    /// The shared recovery walk. For normal recovery the scan starts at the
    /// last three segments; for abnormal recovery at the newest segment the
    /// checkpoint vouches for, and dispatch requests are re-emitted.
    #[verifier::rlimit(100)]
    #[verifier::spinoff_prover]
    fn recover_walk(&mut self, max_phy_offset_of_consume_queue: i64, abnormal: bool) -> (r:
        RecoveryOutcome)
        requires
            old(self).wf(),
        ensures
            final(self).wf(),
            final(self).message_store_config == old(self).message_store_config,
            final(self).broker_config == old(self).broker_config,
            final(self).queue_offsets == old(self).queue_offsets,
            !abnormal ==> r.dispatched@.len() == 0,
            forall|i: int|
                0 <= i < r.dispatched@.len() ==> (#[trigger] r.dispatched@[i])@.success
                    && r.dispatched@[i]@.msg_size > 0,
            old(self).mapped_file_queue.mapped_files@.len() == 0 ==> ({
                &&& r.index_action == IndexAction::DestroyAndReload
                &&& final(self).mapped_file_queue.flushed_where == 0
                &&& final(self).mapped_file_queue.committed_where == 0
                &&& final(self).mapped_file_queue.mapped_files@ == old(
                    self,
                ).mapped_file_queue.mapped_files@
                &&& final(self).confirm_offset == old(self).confirm_offset
                &&& final(self).store_checkpoint == old(self).store_checkpoint
                &&& r.dispatched@.len() == 0
                &&& r.process_offset == 0
                &&& r.last_valid_offset == 0
            }),
            old(self).mapped_file_queue.mapped_files@.len() > 0 ==> ({
                let sr = spec_recovery_scan(*old(self), abnormal);
                &&& r.process_offset <= old(self).mapped_file_queue.spec_max_offset()
                &&& r.process_offset == sr.process_offset
                &&& r.last_valid_offset == sr.last_valid_offset
                &&& (abnormal ==> r.dispatched@.map_values(|d: DispatchRequest| d@)
                    == sr.dispatched)
                &&& final(self).mapped_file_queue.mapped_files@
                    == MappedFileQueue::truncate_view(
                    old(self).mapped_file_queue.mapped_files@,
                    r.process_offset,
                    old(self).message_store_config.mapped_file_size_commit_log,
                )
                &&& final(self).mapped_file_queue.flushed_where == r.process_offset
                &&& final(self).mapped_file_queue.committed_where == r.process_offset
                &&& final(self).confirm_offset == r.last_valid_offset
                &&& final(self).store_checkpoint.confirm_phy_offset == r.last_valid_offset
                &&& r.index_action == (if max_phy_offset_of_consume_queue >= r.process_offset {
                    IndexAction::TruncateTo(r.process_offset)
                } else {
                    IndexAction::Keep
                })
            }),
    {
        let n = self.mapped_file_queue.len();
        if n == 0 {
            self.mapped_file_queue.set_flushed_where(0);
            self.mapped_file_queue.set_committed_where(0);
            return RecoveryOutcome {
                process_offset: 0,
                last_valid_offset: 0,
                dispatched: Vec::new(),
                index_action: IndexAction::DestroyAndReload,
            };
        }
        let start_index: usize;
        let init_last_valid: u64;
        let confirm_bound: Option<u64>;
        if abnormal {
            start_index = self.find_recover_start();
            proof {
                let fsz = self.mapped_file_queue.mapped_file_size;
                self.mapped_file_queue.lemma_ffo_linear(start_index as int);
                self.mapped_file_queue.lemma_ffo_linear(n - 1);
                assert(0 <= start_index as int * fsz <= (n - 1) * fsz) by (nonlinear_arith)
                    requires
                        0 <= start_index as int <= n - 1,
                        fsz >= 8,
                ;
            }
            init_last_valid = self.mapped_file_queue.mapped_files[start_index]
                .get_file_from_offset();
            confirm_bound = if self.message_store_config.duplication_enable {
                if self.confirm_offset >= 0 {
                    Some(self.confirm_offset as u64)
                } else {
                    Some(0)
                }
            } else {
                None
            };
        } else {
            start_index = if n > 3 {
                n - 3
            } else {
                0
            };
            init_last_valid = self.get_confirm_offset_for_recovery();
            confirm_bound = None;
        }
        let (process_offset, last_valid, dispatched) = self.scan_from(
            start_index,
            init_last_valid,
            abnormal,
            confirm_bound,
        );
        self.set_confirm_offset(last_valid as i64);
        let index_action = if max_phy_offset_of_consume_queue >= process_offset as i64 {
            IndexAction::TruncateTo(process_offset)
        } else {
            IndexAction::Keep
        };
        self.mapped_file_queue.set_flushed_where(process_offset);
        self.mapped_file_queue.set_committed_where(process_offset);
        self.mapped_file_queue.truncate_dirty_files(process_offset);
        RecoveryOutcome { process_offset, last_valid_offset: last_valid, dispatched, index_action }
    }

    /// The newest segment the checkpoint vouches for, walking backwards
    /// from the tail; segment 0 when none matches.
    fn find_recover_start(&self) -> (r: usize)
        requires
            self.wf(),
            self.mapped_file_queue.mapped_files@.len() > 0,
        ensures
            r < self.mapped_file_queue.mapped_files@.len(),
            r == spec_recover_start(
                self.mapped_file_queue.mapped_files@,
                self.message_store_config,
                self.store_checkpoint,
                self.mapped_file_queue.mapped_files@.len() - 1,
            ),
    {
        let n = self.mapped_file_queue.len();
        let mut index: usize = n - 1;
        loop
            invariant
                self.wf(),
                n == self.mapped_file_queue.mapped_files@.len(),
                0 <= index < n,
                spec_recover_start(
                    self.mapped_file_queue.mapped_files@,
                    self.message_store_config,
                    self.store_checkpoint,
                    n - 1,
                ) == spec_recover_start(
                    self.mapped_file_queue.mapped_files@,
                    self.message_store_config,
                    self.store_checkpoint,
                    index as int,
                ),
            decreases index,
        {
            proof {
                assert(self.mapped_file_queue.mapped_files@[index as int].wf(
                    self.mapped_file_queue.mapped_file_size,
                ));
            }
            let matched = self.is_mapped_file_matched_recover(
                &self.mapped_file_queue.mapped_files[index],
            );
            if matched || index == 0 {
                return index;
            }
            index = index - 1;
        }
    }

    /// The confirm offset a recovery walk starts from, clamped to zero.
    fn get_confirm_offset_for_recovery(&self) -> (r: u64)
        requires
            self.wf(),
        ensures
            r <= i64::MAX,
            r == (if self.broker_config.duplication_enable {
                if self.confirm_offset >= 0 {
                    self.confirm_offset as int
                } else {
                    0int
                }
            } else {
                self.mapped_file_queue.spec_max_offset()
            }),
    {
        let v = self.get_confirm_offset();
        if v >= 0 {
            v as u64
        } else {
            0
        }
    }
}

} // verus!
