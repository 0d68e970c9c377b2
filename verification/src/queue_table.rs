//! The per-(topic, queueId) logical offset counters that the consume-queue
//! store keeps for the append engine, modeled as an association list with a
//! map view.

use vstd::prelude::*;
use crate::props::bytes_eq;

verus! {

/// One (topic, queueId) counter.
pub struct QueueEntry {
    pub topic: Vec<u8>,
    pub queue_id: u32,
    pub offset: u64,
}

/// The per-queue logical offset counters.
pub struct QueueOffsetTable {
    pub entries: Vec<QueueEntry>,
}

/// The mapping an entry list denotes; later entries win.
pub open spec fn entries_map(s: Seq<QueueEntry>) -> Map<(Seq<u8>, u32), u64>
    decreases s.len(),
{
    if s.len() == 0 {
        Map::empty()
    } else {
        entries_map(s.drop_last()).insert((s.last().topic@, s.last().queue_id), s.last().offset)
    }
}

impl QueueOffsetTable {
    /// The mapping this table denotes.
    pub open spec fn view_map(self) -> Map<(Seq<u8>, u32), u64> {
        entries_map(self.entries@)
    }

    /// The counter of a queue: its entry, or 0 before the first message.
    pub open spec fn spec_offset_of(self, topic: Seq<u8>, queue_id: u32) -> u64 {
        if self.view_map().dom().contains((topic, queue_id)) {
            self.view_map()[(topic, queue_id)]
        } else {
            0
        }
    }

    /// An empty table.
    pub fn new() -> (r: QueueOffsetTable)
        ensures
            r.view_map() == Map::<(Seq<u8>, u32), u64>::empty(),
    {
        QueueOffsetTable { entries: Vec::new() }
    }

    /// The current counter of a queue, 0 when the queue is new.
    pub fn get_offset(&self, topic: &Vec<u8>, queue_id: u32) -> (r: u64)
        ensures
            r == self.spec_offset_of(topic@, queue_id),
    {
        let n = self.entries.len();
        let mut i: usize = n;
        proof {
            assert(self.entries@.take(n as int) =~= self.entries@);
        }
        while i > 0
            invariant
                0 <= i <= n == self.entries@.len(),
                self.spec_offset_of(topic@, queue_id) == (if entries_map(
                    self.entries@.take(i as int),
                ).dom().contains((topic@, queue_id)) {
                    entries_map(self.entries@.take(i as int))[(topic@, queue_id)]
                } else {
                    0u64
                }),
            decreases i,
        {
            i = i - 1;
            proof {
                assert(self.entries@.take(i + 1).drop_last() =~= self.entries@.take(i as int));
                assert(self.entries@.take(i + 1).last() == self.entries@[i as int]);
            }
            let e = &self.entries[i];
            if bytes_eq(&e.topic, topic) && e.queue_id == queue_id {
                return e.offset;
            }
        }
        proof {
            assert(self.entries@.take(0) =~= Seq::<QueueEntry>::empty());
        }
        0
    }

    /// Add `n` to the counter of a queue, saturating at the largest `u64`.
    pub fn increase_offset(&mut self, topic: &Vec<u8>, queue_id: u32, n: u32)
        ensures
            final(self).view_map() == old(self).view_map().insert(
                (topic@, queue_id),
                (if old(self).spec_offset_of(topic@, queue_id) + n <= u64::MAX {
                    (old(self).spec_offset_of(topic@, queue_id) + n) as u64
                } else {
                    u64::MAX
                }),
            ),
    {
        let cur = self.get_offset(topic, queue_id);
        let new_val: u64 = match cur.checked_add(n as u64) {
            Some(v) => v,
            None => u64::MAX,
        };
        let entry = QueueEntry { topic: crate::props::copy_range(topic, 0, topic.len()), queue_id, offset: new_val };
        let ghost pre = self.entries@;
        self.entries.push(entry);
        proof {
            assert(self.entries@.drop_last() =~= pre);
            assert(self.entries@.last().topic@ =~= topic@);
        }
    }
}

} // verus!
