//! A bounded in-memory log ring: the newest entries, up to a capacity.

use vstd::prelude::*;

verus! {

#[derive(Debug, Clone, PartialEq, Eq)]
pub struct LogEntry {
    pub level: String,
    pub target: String,
    pub message: String,
    pub timestamp_ms: u128,
}

impl LogEntry {
    pub fn new(level: String, target: String, message: String, timestamp_ms: u128) -> (r: Self)
        ensures
            r == (LogEntry { level, target, message, timestamp_ms }),
    {
        LogEntry { level, target, message, timestamp_ms }
    }
}

/// What one push leaves in the ring: the oldest entry falls out once the
/// ring is full.
pub open spec fn spec_ring_push(entries: Seq<LogEntry>, capacity: int, entry: LogEntry) -> Seq<
    LogEntry,
> {
    if entries.len() >= capacity && entries.len() > 0 {
        entries.drop_first().push(entry)
    } else {
        entries.push(entry)
    }
}

pub struct LogStore {
    entries: Vec<LogEntry>,
    capacity: usize,
}

impl LogStore {
    pub closed spec fn spec_entries(self) -> Seq<LogEntry> {
        self.entries@
    }

    pub closed spec fn spec_capacity(self) -> int {
        self.capacity as int
    }

    pub fn new(capacity: usize) -> (r: Self)
        ensures
            r.spec_entries() =~= Seq::<LogEntry>::empty(),
            r.spec_capacity() == capacity,
    {
        LogStore { entries: Vec::new(), capacity }
    }

    /// Appends an entry, evicting the oldest once the ring is full.
    pub fn push(&mut self, entry: LogEntry)
        ensures
            final(self).spec_entries() == spec_ring_push(
                old(self).spec_entries(),
                old(self).spec_capacity(),
                entry,
            ),
            final(self).spec_capacity() == old(self).spec_capacity(),
    {
        if self.entries.len() >= self.capacity && self.entries.len() > 0 {
            self.entries.remove(0);
        }
        self.entries.push(entry);
        proof {
            if old(self).spec_entries().len() >= old(self).spec_capacity() && old(
                self,
            ).spec_entries().len() > 0 {
                assert(old(self).spec_entries().remove(0) =~= old(
                    self,
                ).spec_entries().drop_first());
            }
        }
    }

    /// The entries, oldest first.
    pub fn entries(&self) -> (r: Vec<LogEntry>)
        ensures
            r@ == self.spec_entries(),
    {
        let n = self.entries.len();
        let mut out: Vec<LogEntry> = Vec::new();
        let mut i: usize = 0;
        while i < n
            invariant
                n == self.entries@.len(),
                i <= n,
                out@ =~= self.entries@.take(i as int),
            decreases n - i,
        {
            let e = &self.entries[i];
            out.push(
                LogEntry {
                    level: e.level.clone(),
                    target: e.target.clone(),
                    message: e.message.clone(),
                    timestamp_ms: e.timestamp_ms,
                },
            );
            proof {
                assert(out@ =~= self.entries@.take(i as int + 1));
            }
            i = i + 1;
        }
        proof {
            assert(self.entries@.take(n as int) =~= self.entries@);
        }
        out
    }
}

} // verus!
