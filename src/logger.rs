//! The on-screen log console's memory: the most recent entries, oldest
//! first.
use vstd::prelude::*;

verus! {

pub const LOG_CAPACITY: usize = 50;

pub struct LogEntry {
    pub level: &'static str,
    pub message: String,
}

/// Keeps at most `LOG_CAPACITY` entries, dropping the oldest.
pub struct LogBuffer {
    entries: Vec<LogEntry>,
}

impl LogBuffer {
    pub closed spec fn contents(self) -> Seq<LogEntry> {
        self.entries@
    }

    pub fn new() -> (r: Self)
        ensures
            r.contents().len() == 0,
    {
        LogBuffer { entries: Vec::new() }
    }

    pub fn push(&mut self, level: &'static str, message: String)
        requires
            old(self).contents().len() <= LOG_CAPACITY,
        ensures
            final(self).contents().len() <= LOG_CAPACITY,
            final(self).contents() == if old(self).contents().len() >= LOG_CAPACITY {
                old(self).contents().drop_first().push(LogEntry { level, message })
            } else {
                old(self).contents().push(LogEntry { level, message })
            },
    {
        if self.entries.len() >= LOG_CAPACITY {
            self.entries.remove(0);
        }
        self.entries.push(LogEntry { level, message });
    }

    pub fn entries(&self) -> (r: &[LogEntry])
        ensures
            r@ == self.contents(),
    {
        self.entries.as_slice()
    }
}

} // verus!
