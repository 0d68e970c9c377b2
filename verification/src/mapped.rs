//! The segmented address space of the log: fixed-size in-memory segments
//! ordered by their base offset, with wrote/flushed/committed positions,
//! bounded reads, raw appends, and dirty-tail truncation.

use vstd::prelude::*;
use crate::endian::{be_u32, get_u32_be};
use crate::props::copy_range;

verus! {

/// One fixed-size segment of the log. Its name on disk is the zero-padded
/// decimal of `file_from_offset`; here the bytes live in `data`.
pub struct MappedFile {
    /// Absolute physical offset of byte 0 of this segment.
    pub file_from_offset: u64,
    /// The segment's bytes; always exactly the store's segment size.
    pub data: Vec<u8>,
    /// Bytes `[0, wrote_position)` hold written frames.
    pub wrote_position: usize,
    pub flushed_position: usize,
    pub committed_position: usize,
    /// Whether the segment is still mapped and readable.
    pub available: bool,
}

impl MappedFile {
    /// Positions stay within the fixed segment size.
    pub open spec fn wf(self, file_size: u32) -> bool {
        &&& self.data@.len() == file_size
        &&& self.wrote_position <= file_size
        &&& self.flushed_position <= file_size
        &&& self.committed_position <= file_size
    }

    /// A fresh, empty segment of `file_size` zero bytes at `offset`.
    pub fn create(offset: u64, file_size: u32) -> (r: MappedFile)
        ensures
            r.wf(file_size),
            r.file_from_offset == offset,
            r.wrote_position == 0,
            r.flushed_position == 0,
            r.committed_position == 0,
            r.available,
            r.data@ == Seq::new(file_size as nat, |i: int| 0u8),
    {
        let data = vec![0u8; file_size as usize];
        proof {
            assert(data@ =~= Seq::new(file_size as nat, |i: int| 0u8));
        }
        MappedFile {
            file_from_offset: offset,
            data,
            wrote_position: 0,
            flushed_position: 0,
            committed_position: 0,
            available: true,
        }
    }

    /// A segment loaded from durable storage: its whole extent counts as
    /// written until recovery truncates it.
    pub fn from_loaded(offset: u64, data: Vec<u8>) -> (r: MappedFile)
        ensures
            r.file_from_offset == offset,
            r.data == data,
            r.wrote_position == data@.len(),
            r.flushed_position == data@.len(),
            r.committed_position == data@.len(),
            r.available,
    {
        let n = data.len();
        MappedFile {
            file_from_offset: offset,
            data,
            wrote_position: n,
            flushed_position: n,
            committed_position: n,
            available: true,
        }
    }

    /// Whether every byte of the segment is written.
    pub fn is_full(&self) -> (r: bool)
        ensures
            r == (self.wrote_position == self.data@.len()),
    {
        self.wrote_position == self.data.len()
    }

    pub fn get_file_from_offset(&self) -> (r: u64)
        ensures
            r == self.file_from_offset,
    {
        self.file_from_offset
    }

    pub fn get_wrote_position(&self) -> (r: usize)
        ensures
            r == self.wrote_position,
    {
        self.wrote_position
    }

    pub fn is_available(&self) -> (r: bool)
        ensures
            r == self.available,
    {
        self.available
    }

    /// Read `size` bytes at `position`, bounded by the wrote position:
    /// bytes past it are not yet part of the log.
    pub fn get_bytes(&self, position: usize, size: usize) -> (r: Option<Vec<u8>>)
        requires
            self.wrote_position <= self.data@.len(),
        ensures
            match r {
                Some(v) => position + size <= self.wrote_position && v@ == self.data@.subrange(
                    position as int,
                    position + size,
                ),
                None => position + size > self.wrote_position,
            },
{
        if position > self.wrote_position || self.wrote_position - position < size {
            return None;
        }
        Some(copy_range(&self.data, position, position + size))
    }

    /// Overwrite `bytes` at `pos`, leaving everything else in place.
    pub fn write_bytes(&mut self, pos: usize, bytes: &Vec<u8>)
        requires
            pos + bytes@.len() <= old(self).data@.len(),
        ensures
            final(self).data@ == old(self).data@.take(pos as int) + bytes@ + old(self).data@.skip(pos + bytes@.len()),
            final(self).data@.len() == old(self).data@.len(),
            final(self).file_from_offset == old(self).file_from_offset,
            final(self).wrote_position == old(self).wrote_position,
            final(self).flushed_position == old(self).flushed_position,
            final(self).committed_position == old(self).committed_position,
            final(self).available == old(self).available,
    {
        let n = bytes.len();
        let total_len = self.data.len();
        let mut i: usize = 0;
        while i < n
            invariant
                0 <= i <= n == bytes@.len(),
                pos + n <= total_len == self.data@.len(),
                self.data@.len() == old(self).data@.len(),
                forall|j: int|
                    0 <= j < self.data@.len() && !(pos <= j < pos + i) ==> self.data@[j] == old(self).data@[j],
                forall|j: int| 0 <= j < i ==> self.data@[pos + j] == bytes@[j],
                self.file_from_offset == old(self).file_from_offset,
                self.wrote_position == old(self).wrote_position,
                self.flushed_position == old(self).flushed_position,
                self.committed_position == old(self).committed_position,
                self.available == old(self).available,
            decreases n - i,
        {
            self.data.set(pos + i, bytes[i]);
            i = i + 1;
        }
        proof {
            assert(self.data@ =~= old(self).data@.take(pos as int) + bytes@ + old(self).data@.skip(pos + bytes@.len()));
        }
    }
}

impl MappedFile {
    /// The tail either is closed or leaves room for the 8-byte sentinel:
    /// the append protocol keeps every segment in this shape.
    pub open spec fn tail_ok(self) -> bool {
        self.wrote_position == self.data@.len() || self.wrote_position + 8 <= self.data@.len()
    }

    /// Write one frame at the wrote position, which must fit together
    /// with the room the 8-byte sentinel needs.
    pub fn write_frame(&mut self, frame: &Vec<u8>)
        requires
            old(self).wrote_position + frame@.len() + 8 <= old(self).data@.len(),
        ensures
            final(self).data@.len() == old(self).data@.len(),
            final(self).file_from_offset == old(self).file_from_offset,
            final(self).flushed_position == old(self).flushed_position,
            final(self).committed_position == old(self).committed_position,
            final(self).available == old(self).available,
            final(self).wrote_position == old(self).wrote_position + frame@.len(),
            final(self).data@.take(old(self).wrote_position as int) == old(self).data@.take(
                old(self).wrote_position as int,
            ),
            final(self).data@.subrange(
                old(self).wrote_position as int,
                old(self).wrote_position + frame@.len(),
            ) == frame@,
    {
        let wrote = self.wrote_position;
        let total_len = self.data.len();
        self.write_bytes(wrote, frame);
        self.wrote_position = wrote + frame.len();
        proof {
            assert(self.wrote_position <= total_len);
        }
        proof {
            assert(final(self).data@.subrange(wrote as int, wrote + frame@.len()) =~= frame@);
            assert(final(self).data@.take(wrote as int) =~= old(self).data@.take(wrote as int));
        }
    }

    /// The end-of-segment padding record as far as the remaining space
    /// carries it: `[remainingSize][BLANK_MAGIC]`, cut to the space left.
    pub open spec fn spec_padding(remaining: int) -> Seq<u8> {
        let sentinel = crate::endian::be_bytes_u32(remaining as u32) + crate::endian::be_bytes_u32(
            crate::BLANK_MAGIC_CODE,
        );
        if remaining < 8 {
            sentinel.take(remaining)
        } else {
            sentinel
        }
    }

    /// Close the segment: write the padding sentinel at the wrote position
    /// and mark every byte written. Nothing follows it in this segment.
    pub fn write_padding(&mut self)
        requires
            old(self).wrote_position < old(self).data@.len(),
            old(self).data@.len() <= 0x4000_0000,
        ensures
            final(self).data@.len() == old(self).data@.len(),
            final(self).file_from_offset == old(self).file_from_offset,
            final(self).flushed_position == old(self).flushed_position,
            final(self).committed_position == old(self).committed_position,
            final(self).available == old(self).available,
            final(self).wrote_position == final(self).data@.len(),
            final(self).data@.take(old(self).wrote_position as int) == old(self).data@.take(
                old(self).wrote_position as int,
            ),
            final(self).data@.subrange(
                old(self).wrote_position as int,
                old(self).wrote_position + vstd::math::min(
                    8,
                    old(self).data@.len() - old(self).wrote_position,
                ),
            ) == Self::spec_padding(old(self).data@.len() - old(self).wrote_position),
    {
        let wrote = self.wrote_position;
        let size = self.data.len();
        let remaining = size - wrote;
        let mut sentinel: Vec<u8> = Vec::new();
        crate::endian::put_u32_be(&mut sentinel, remaining as u32);
        crate::endian::put_u32_be(&mut sentinel, crate::BLANK_MAGIC_CODE);
        proof {
            assert(sentinel@ =~= crate::endian::be_bytes_u32(remaining as u32)
                + crate::endian::be_bytes_u32(crate::BLANK_MAGIC_CODE));
        }
        if remaining < 8 {
            sentinel.truncate(remaining);
            proof {
                assert(sentinel@ =~= Self::spec_padding(remaining as int));
            }
        }
        self.write_bytes(wrote, &sentinel);
        self.wrote_position = size;
        proof {
            assert(final(self).data@.subrange(wrote as int, wrote + sentinel@.len()) =~= sentinel@);
            assert(final(self).data@.take(wrote as int) =~= old(self).data@.take(wrote as int));
        }
    }
}

/// The ordered list of segments plus the store-wide positions.
pub struct MappedFileQueue {
    /// Size in bytes of every segment.
    pub mapped_file_size: u32,
    /// Segments ordered by `file_from_offset`.
    pub mapped_files: Vec<MappedFile>,
    pub flushed_where: u64,
    pub committed_where: u64,
}

impl MappedFileQueue {
    /// Segments are equally sized, contiguous, aligned to the segment size,
    /// all but the last full, and the address space fits in a `u64`.
    pub open spec fn wf(self) -> bool {
        &&& 8 <= self.mapped_file_size <= 0x4000_0000
        &&& forall|i: int|
            0 <= i < self.mapped_files@.len() ==> (#[trigger] self.mapped_files@[i]).wf(
                self.mapped_file_size,
            )
        &&& forall|i: int|
            #![trigger self.mapped_files@[i].file_from_offset]
            0 < i < self.mapped_files@.len() ==> self.mapped_files@[i].file_from_offset
                == self.mapped_files@[i - 1].file_from_offset + self.mapped_file_size
        &&& forall|i: int|
            0 <= i < self.mapped_files@.len() ==> (#[trigger] self.mapped_files@[
                i
            ]).file_from_offset % (self.mapped_file_size as u64) == 0
        &&& forall|i: int|
            0 <= i < self.mapped_files@.len() - 1 ==> (#[trigger] self.mapped_files@[
                i
            ]).wrote_position == self.mapped_file_size
        &&& (self.mapped_files@.len() > 0 ==> self.mapped_files@.last().file_from_offset
            + self.mapped_file_size <= i64::MAX)
    }

    /// An empty queue of segments of size `mapped_file_size`.
    pub fn new(mapped_file_size: u32) -> (r: MappedFileQueue)
        requires
            8 <= mapped_file_size <= 0x4000_0000,
        ensures
            r.wf(),
            r.mapped_file_size == mapped_file_size,
            r.mapped_files@.len() == 0,
            r.flushed_where == 0,
            r.committed_where == 0,
    {
        MappedFileQueue {
            mapped_file_size,
            mapped_files: Vec::new(),
            flushed_where: 0,
            committed_where: 0,
        }
    }

    /// Highest physical offset the log covers: base of the last segment
    /// plus its wrote position, or 0 when empty.
    pub open spec fn spec_max_offset(self) -> int {
        if self.mapped_files@.len() == 0 {
            0
        } else {
            self.mapped_files@.last().file_from_offset + self.mapped_files@.last().wrote_position
        }
    }

    /// Highest physical offset the log covers.
    pub fn get_max_offset(&self) -> (r: u64)
        requires
            self.wf(),
        ensures
            r == self.spec_max_offset(),
    {
        let n = self.mapped_files.len();
        if n == 0 {
            0
        } else {
            let f = &self.mapped_files[n - 1];
            proof {
                assert(self.mapped_files@[n - 1].wf(self.mapped_file_size));
            }
            f.file_from_offset + (f.wrote_position as u64)
        }
    }

    /// Number of segments.
    pub fn len(&self) -> (r: usize)
        ensures
            r == self.mapped_files@.len(),
    {
        self.mapped_files.len()
    }

    /// The last (writable) segment, if any.
    pub fn get_last_mapped_file(&self) -> (r: Option<&MappedFile>)
        ensures
            match r {
                Some(f) => self.mapped_files@.len() > 0 && *f == self.mapped_files@.last(),
                None => self.mapped_files@.len() == 0,
            },
    {
        let n = self.mapped_files.len();
        if n == 0 {
            None
        } else {
            Some(&self.mapped_files[n - 1])
        }
    }

    /// The first segment, if any.
    pub fn get_first_mapped_file(&self) -> (r: Option<&MappedFile>)
        ensures
            match r {
                Some(f) => self.mapped_files@.len() > 0 && *f == self.mapped_files@[0],
                None => self.mapped_files@.len() == 0,
            },
    {
        if self.mapped_files.len() == 0 {
            None
        } else {
            Some(&self.mapped_files[0])
        }
    }

    /// Index of the writable tail segment, creating a new one when the
    /// queue is empty or its last segment is full. Returns `None` exactly
    /// when a new segment's base offset would not fit in a `u64`.
    #[verifier::rlimit(30)]
    pub fn get_last_mapped_file_or_create(&mut self, start_offset: u64) -> (r: Option<usize>)
        requires
            old(self).wf(),
        ensures
            final(self).wf(),
            final(self).mapped_file_size == old(self).mapped_file_size,
            final(self).flushed_where == old(self).flushed_where,
            final(self).committed_where == old(self).committed_where,
            match r {
                Some(i) => {
                    &&& final(self).mapped_files@.len() > 0
                    &&& i + 1 == final(self).mapped_files@.len()
                    &&& final(self).mapped_files@[i as int].wrote_position < final(self).mapped_file_size
                    &&& (if old(self).mapped_files@.len() > 0 && old(self).mapped_files@.last().wrote_position < old(self).mapped_file_size {
                        final(self).mapped_files@ == old(self).mapped_files@
                    } else {
                        &&& final(self).mapped_files@.len() == old(self).mapped_files@.len() + 1
                        &&& final(self).mapped_files@.take(old(self).mapped_files@.len() as int)
                            == old(self).mapped_files@
                        &&& final(self).mapped_files@.last().wrote_position == 0
                        &&& final(self).mapped_files@.last().file_from_offset == (if old(self).mapped_files@.len() > 0 {
                            old(self).mapped_files@.last().file_from_offset + old(self).mapped_file_size
                        } else {
                            start_offset - (start_offset % (old(self).mapped_file_size as u64))
                        })
                        &&& final(self).spec_max_offset() == final(self).mapped_files@.last().file_from_offset
                    })
                },
                None => ({
                    let fs = old(self).mapped_file_size as int;
                    &&& *final(self) == *old(self)
                    &&& (if old(self).mapped_files@.len() == 0 {
                        start_offset - (start_offset as int % fs) + fs > i64::MAX
                    } else {
                        &&& old(self).mapped_files@.last().wrote_position == fs
                        &&& old(self).mapped_files@.last().file_from_offset + 2 * fs > i64::MAX
                    })
                }),
            },
{
        let n = self.mapped_files.len();
        if n > 0 {
            proof {
                assert(self.mapped_files@[n - 1].wf(self.mapped_file_size));
            }
            if self.mapped_files[n - 1].wrote_position < self.mapped_file_size as usize {
                return Some(n - 1);
            }
            let last_offset = self.mapped_files[n - 1].file_from_offset;
            match last_offset.checked_add(self.mapped_file_size as u64) {
                None => {
                    proof {
                        assert(false);
                    }
                    return None;
                },
                Some(new_offset) => {
                    if new_offset > (i64::MAX as u64) - self.mapped_file_size as u64 {
                        return None;
                    }
                    let f = MappedFile::create(new_offset, self.mapped_file_size);
                    let ghost old_files = self.mapped_files@;
                    self.mapped_files.push(f);
                    proof {
                        assert(self.mapped_files@.take(old_files.len() as int) =~= old_files);
                        assert(self.mapped_files@.last().file_from_offset % (
                        self.mapped_file_size as u64) == 0) by {
                            let fs = self.mapped_file_size as u64;
                            assert(old(self).mapped_files@[old_files.len() - 1].file_from_offset
                                % fs == 0);
                            assert(old_files.last().file_from_offset % fs == 0);
                            vstd::arithmetic::div_mod::lemma_add_mod_noop(
                                old_files.last().file_from_offset as int,
                                fs as int,
                                fs as int,
                            );
                            assert((fs as int) % (fs as int) == 0) by {
                                vstd::arithmetic::div_mod::lemma_mod_self_0(fs as int);
                            }
                            vstd::arithmetic::div_mod::lemma_small_mod(0nat, fs as nat);
                        }
                    }
                    return Some(n);
                },
            }
        } else {
            proof {
                vstd::arithmetic::div_mod::lemma_mod_decreases(
                    start_offset as nat,
                    self.mapped_file_size as nat,
                );
            }
            let base = start_offset - (start_offset % (self.mapped_file_size as u64));
            if base > (i64::MAX as u64) - self.mapped_file_size as u64 {
                return None;
            }
            let f = MappedFile::create(base, self.mapped_file_size);
            self.mapped_files.push(f);
            proof {
                let fs = self.mapped_file_size as u64;
                assert(base % fs == 0) by {
                    vstd::arithmetic::div_mod::lemma_mod_bound(start_offset as int, fs as int);
                    vstd::arithmetic::div_mod::lemma_small_mod(
                        (start_offset % fs) as nat,
                        fs as nat,
                    );
                    vstd::arithmetic::div_mod::lemma_mod_subtraction(
                        start_offset as nat,
                        (start_offset % fs) as nat,
                        fs as nat,
                    );
                }
                assert(self.mapped_files@.take(0) =~= Seq::<MappedFile>::empty());
            }
            return Some(0);
        }
    }

    /// All segment bases are linear in the index.
    pub proof fn lemma_ffo_linear(self, i: int)
        requires
            self.wf(),
            0 <= i < self.mapped_files@.len(),
        ensures
            self.mapped_files@[i].file_from_offset == self.mapped_files@[0].file_from_offset + i
                * self.mapped_file_size,
        decreases i,
    {
        if i > 0 {
            self.lemma_ffo_linear(i - 1);
            assert(self.mapped_files@[(i - 1) + 1].file_from_offset == self.mapped_files@[i
                - 1].file_from_offset + self.mapped_file_size);
            assert((i - 1) * self.mapped_file_size + self.mapped_file_size == i
                * self.mapped_file_size) by (nonlinear_arith);
        } else {
            assert(0 * self.mapped_file_size == 0) by (nonlinear_arith);
        }
    }

    /// Whether some segment of the queue covers physical offset `offset`.
    pub open spec fn spec_covers(self, offset: u64) -> bool {
        &&& self.mapped_files@.len() > 0
        &&& self.mapped_files@[0].file_from_offset <= offset
        &&& offset < self.mapped_files@.last().file_from_offset + self.mapped_file_size
    }

    /// Index of the segment covering `offset`; meaningful when the queue
    /// covers it.
    pub open spec fn spec_covering_index(self, offset: u64) -> int {
        (offset - self.mapped_files@[0].file_from_offset) as int / (self.mapped_file_size as int)
    }

    /// Index of the segment covering `offset`; on a miss, the first
    /// segment when `return_first_on_not_found` is set.
    pub fn find_mapped_file_by_offset(&self, offset: u64, return_first_on_not_found: bool) -> (
        r: Option<usize>)
        requires
            self.wf(),
        ensures
            match r {
                Some(i) => {
                    &&& i < self.mapped_files@.len()
                    &&& (if self.spec_covers(offset) {
                        i == self.spec_covering_index(offset)
                            && self.mapped_files@[i as int].file_from_offset <= offset
                            < self.mapped_files@[i as int].file_from_offset
                            + self.mapped_file_size
                    } else {
                        return_first_on_not_found && i == 0
                    })
                },
                None => !self.spec_covers(offset) && !(return_first_on_not_found
                    && self.mapped_files@.len() > 0),
            },
    {
        let n = self.mapped_files.len();
        if n == 0 {
            return None;
        }
        let first = self.mapped_files[0].file_from_offset;
        proof {
            self.lemma_ffo_linear(n - 1);
            assert((n - 1) * self.mapped_file_size >= 0) by (nonlinear_arith)
                requires
                    n >= 1,
                    self.mapped_file_size >= 8,
            ;
        }
        let last = self.mapped_files[n - 1].file_from_offset;
        if offset >= first && offset < last + self.mapped_file_size as u64 {
            let fs = self.mapped_file_size as u64;
            let d = (offset - first) / fs;
            proof {
                let di = d as int;
                let fsi = fs as int;
                let off = (offset - first) as int;
                vstd::arithmetic::div_mod::lemma_fundamental_div_mod(off, fsi);
                vstd::arithmetic::div_mod::lemma_mod_bound(off, fsi);
                assert(di * fsi <= off < (di + 1) * fsi) by (nonlinear_arith)
                    requires
                        off == fsi * di + off % fsi,
                        0 <= off % fsi < fsi,
                ;
                assert((n - 1) * fsi + fsi == n as int * fsi) by (nonlinear_arith);
                assert(off < n as int * fsi);
                assert(di < n) by {
                    if di >= n {
                        assert(di * fsi >= n as int * fsi) by (nonlinear_arith)
                            requires
                                di >= n as int,
                                fsi > 0,
                        ;
                    }
                }
                self.lemma_ffo_linear(di);
                assert(di == self.spec_covering_index(offset));
            }
            return Some(d as usize);
        }
        if return_first_on_not_found {
            return Some(0);
        }
        None
    }

    /// Segments acceptable as a loaded log: equally sized with in-bounds
    /// positions, full but for the last, aligned, contiguous, and within
    /// the address space.
    pub open spec fn spec_loadable(loaded: Seq<MappedFile>, fsz: u32) -> bool {
        &&& forall|i: int| 0 <= i < loaded.len() ==> (#[trigger] loaded[i]).wf(fsz)
        &&& forall|i: int|
            0 <= i < loaded.len() - 1 ==> (#[trigger] loaded[i]).wrote_position == fsz
        &&& forall|i: int|
            0 <= i < loaded.len() ==> (#[trigger] loaded[i]).file_from_offset % (fsz as u64) == 0
        &&& forall|i: int|
            0 <= i < loaded.len() ==> (#[trigger] loaded[i]).file_from_offset + fsz <= i64::MAX
        &&& forall|i: int|
            #![trigger loaded[i].file_from_offset]
            0 < i < loaded.len() ==> loaded[i].file_from_offset == loaded[i
                - 1].file_from_offset + fsz
    }

    /// Adopt segments loaded from durable storage, validating that they are
    /// equally sized, contiguous, aligned, and full but for the last.
    /// On failure the queue is left empty.
    pub fn load(&mut self, loaded: Vec<MappedFile>) -> (r: bool)
        requires
            old(self).wf(),
            old(self).mapped_files@.len() == 0,
        ensures
            final(self).wf(),
            final(self).mapped_file_size == old(self).mapped_file_size,
            r == Self::spec_loadable(loaded@, old(self).mapped_file_size),
            r ==> final(self).mapped_files@ == loaded@,
            !r ==> final(self).mapped_files@.len() == 0,
            final(self).flushed_where == old(self).flushed_where,
            final(self).committed_where == old(self).committed_where,
    {
        let n = loaded.len();
        let fs = self.mapped_file_size;
        let mut i: usize = 0;
        while i < n
            invariant
                0 <= i <= n == loaded@.len(),
                fs == self.mapped_file_size,
                self.wf(),
                self.mapped_files@.len() == 0,
                self.mapped_file_size == old(self).mapped_file_size,
                self.flushed_where == old(self).flushed_where,
                self.committed_where == old(self).committed_where,
                forall|j: int| 0 <= j < i ==> (#[trigger] loaded@[j]).wf(fs),
                forall|j: int|
                    #![trigger loaded@[j].file_from_offset]
                    0 < j < i ==> loaded@[j].file_from_offset == loaded@[j - 1].file_from_offset
                        + fs,
                forall|j: int|
                    0 <= j < i ==> (#[trigger] loaded@[j]).file_from_offset % (fs as u64) == 0,
                forall|j: int|
                    0 <= j < i && j < n - 1 ==> (#[trigger] loaded@[j]).wrote_position == fs,
                forall|j: int|
                    0 <= j < i ==> (#[trigger] loaded@[j]).file_from_offset + fs <= i64::MAX,
            decreases n - i,
        {
            let f = &loaded[i];
            if f.data.len() != fs as usize || f.wrote_position > fs as usize
                || f.flushed_position > fs as usize || f.committed_position > fs as usize {
                return false;
            }
            if i < n - 1 && f.wrote_position != fs as usize {
                return false;
            }
            if f.file_from_offset % (fs as u64) != 0 {
                return false;
            }
            if f.file_from_offset > (i64::MAX as u64) - fs as u64 {
                return false;
            }
            if i > 0 {
                proof {
                    assert(loaded@[i - 1].file_from_offset + fs <= i64::MAX);
                }
                if f.file_from_offset != loaded[i - 1].file_from_offset + fs as u64 {
                    return false;
                }
            }
            i = i + 1;
        }
        self.mapped_files = loaded;
        true
    }

    /// The adjusted copy of the segment that a truncation at `offset` cuts.
    pub open spec fn truncated_file(f: MappedFile, offset: u64) -> MappedFile {
        MappedFile {
            wrote_position: (offset - f.file_from_offset) as usize,
            flushed_position: (offset - f.file_from_offset) as usize,
            committed_position: (offset - f.file_from_offset) as usize,
            ..f
        }
    }

    /// The segment list after every byte at or past `offset` is released:
    /// whole segments past it are deleted, and the one covering it has its
    /// positions pulled back.
    pub open spec fn truncate_view(files: Seq<MappedFile>, offset: u64, file_size: u32) -> Seq<
        MappedFile,
    >
        decreases files.len(),
    {
        if files.len() == 0 {
            files
        } else {
            let f = files.last();
            if offset < f.file_from_offset {
                Self::truncate_view(files.drop_last(), offset, file_size)
            } else if offset < f.file_from_offset + file_size {
                files.drop_last().push(Self::truncated_file(f, offset))
            } else {
                files
            }
        }
    }

    /// Truncating twice at the same offset is the same as truncating once:
    /// when a second recovery run finds the same trustworthy end, it leaves
    /// every segment and all three positions exactly as the first run did.
    pub proof fn lemma_truncate_view_idempotent(
        files: Seq<MappedFile>,
        offset: u64,
        file_size: u32,
    )
        ensures
            Self::truncate_view(
                Self::truncate_view(files, offset, file_size),
                offset,
                file_size,
            ) == Self::truncate_view(files, offset, file_size),
        decreases files.len(),
    {
        if files.len() == 0 {
        } else {
            let f = files.last();
            if offset < f.file_from_offset {
                Self::lemma_truncate_view_idempotent(files.drop_last(), offset, file_size);
            } else if offset < f.file_from_offset + file_size {
                let tf = Self::truncated_file(f, offset);
                let r = files.drop_last().push(tf);
                assert(r.last() == tf);
                assert(r.drop_last() =~= files.drop_last());
                assert(Self::truncated_file(tf, offset) == tf);
                assert(Self::truncate_view(r, offset, file_size) =~= r);
            }
        }
    }

    /// Release all bytes at or past `offset`: delete segments wholly past
    /// it and pull back the positions of the one covering it.
    pub fn truncate_dirty_files(&mut self, offset: u64)
        requires
            old(self).wf(),
        ensures
            final(self).wf(),
            final(self).mapped_file_size == old(self).mapped_file_size,
            final(self).flushed_where == old(self).flushed_where,
            final(self).committed_where == old(self).committed_where,
            final(self).mapped_files@ == Self::truncate_view(
                old(self).mapped_files@,
                offset,
                old(self).mapped_file_size,
            ),
    {
        let fs = self.mapped_file_size;
        loop
            invariant
                self.wf(),
                fs == self.mapped_file_size == old(self).mapped_file_size,
                self.flushed_where == old(self).flushed_where,
                self.committed_where == old(self).committed_where,
                Self::truncate_view(self.mapped_files@, offset, fs) == Self::truncate_view(
                    old(self).mapped_files@,
                    offset,
                    fs,
                ),
            decreases self.mapped_files@.len(),
        {
            let n = self.mapped_files.len();
            if n == 0 {
                return ;
            }
            proof {
                assert(self.mapped_files@[n - 1].wf(fs));
            }
            let last_ffo = self.mapped_files[n - 1].file_from_offset;
            if offset < last_ffo {
                let ghost pre = self.mapped_files@;
                self.mapped_files.pop();
                proof {
                    assert(self.mapped_files@ =~= pre.drop_last());
                    assert(Self::truncate_view(pre, offset, fs) == Self::truncate_view(
                        pre.drop_last(),
                        offset,
                        fs,
                    ));
                    if self.mapped_files@.len() > 0 {
                        let k = self.mapped_files@.len() - 1;
                        assert(pre[k + 1].file_from_offset == pre[k].file_from_offset + fs);
                    }
                }
            } else if offset < last_ffo + fs as u64 {
                let ghost pre = self.mapped_files@;
                let mut f = match self.mapped_files.pop() {
                    Some(f) => f,
                    None => {
                        proof {
                            assert(false);
                        }
                        return ;
                    },
                };
                let new_pos = (offset - last_ffo) as usize;
                f.wrote_position = new_pos;
                f.flushed_position = new_pos;
                f.committed_position = new_pos;
                self.mapped_files.push(f);
                proof {
                    assert(self.mapped_files@ =~= pre.drop_last().push(
                        Self::truncated_file(pre.last(), offset),
                    ));
                    assert(Self::truncate_view(pre, offset, fs) == pre.drop_last().push(
                        Self::truncated_file(pre.last(), offset),
                    ));
                }
                return ;
            } else {
                return ;
            }
        }
    }

    /// Monotone setter used after recovery.
    pub fn set_flushed_where(&mut self, flushed_where: u64)
        ensures
            *final(self) == (MappedFileQueue { flushed_where, ..*old(self) }),
    {
        self.flushed_where = flushed_where;
    }

    /// Monotone setter used after recovery.
    pub fn set_committed_where(&mut self, committed_where: u64)
        ensures
            *final(self) == (MappedFileQueue { committed_where, ..*old(self) }),
    {
        self.committed_where = committed_where;
    }
}

} // verus!
