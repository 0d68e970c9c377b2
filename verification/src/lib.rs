//! An append-only, segmented commit log: binary frame codec with CRC and
//! versioning, a segmented in-memory mapped-file model with end-of-segment
//! padding, a single-writer append engine assigning monotonic physical and
//! per-queue logical offsets, and normal/abnormal crash recovery.

use vstd::prelude::*;

pub mod codec;
pub mod commit_log;
pub mod crc;
pub mod endian;
pub mod mapped;
pub mod message;
pub mod props;
pub mod queue_table;
pub mod recover;
pub mod sysflag;

verus! {

/// Magic code marking an ordinary message frame (0xDAA320A7).
pub const MESSAGE_MAGIC_CODE: u32 = 0xDAA3_20A7;

/// Magic code of the second frame version (two-byte topic length).
pub const MESSAGE_MAGIC_CODE_V2: u32 = 0xDAA3_20A8;

/// Magic code of the 8-byte end-of-segment padding sentinel (0xCBD43194).
pub const BLANK_MAGIC_CODE: u32 = 0xCBD4_3194;

} // verus!
