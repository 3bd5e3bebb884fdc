//! The in-memory log shown by the front end: a bounded buffer of numbered entries,
//! with entries below the chosen level left out.
use crate::health::utc_now_rfc3339;
use crate::text::{lower_seq, lower_str, str_eq};
use std::collections::VecDeque;
use vstd::prelude::*;

verus! {

/// How severe a log entry is, from least to most.
#[derive(Clone, Copy, Debug, PartialEq, Eq, Structural)]
pub enum LogLevel {
    Debug,
    Info,
    Warn,
    Error,
}

/// The position of a level in the order from least to most severe.
pub open spec fn rank(l: LogLevel) -> nat {
    match l {
        LogLevel::Debug => 0,
        LogLevel::Info => 1,
        LogLevel::Warn => 2,
        LogLevel::Error => 3,
    }
}

/// The level a name stands for, its letters' case ignored; anything unknown is
/// `Info`. (Only ASCII letters can lower-case to the letters of the level names, so
/// ASCII case folding decides as full lower-casing does.)
pub open spec fn level_of(name: Seq<char>) -> LogLevel {
    let l = lower_seq(name);
    if l == "debug"@ {
        LogLevel::Debug
    } else if l == "warn"@ {
        LogLevel::Warn
    } else if l == "error"@ {
        LogLevel::Error
    } else {
        LogLevel::Info
    }
}

impl LogLevel {
    /// The level a name stands for.
    pub fn from_str(level: &str) -> (l: LogLevel)
        ensures
            l == level_of(level@),
    {
        let s = lower_str(level);
        if str_eq(s.as_str(), "debug") {
            LogLevel::Debug
        } else if str_eq(s.as_str(), "warn") {
            LogLevel::Warn
        } else if str_eq(s.as_str(), "error") {
            LogLevel::Error
        } else {
            LogLevel::Info
        }
    }

    fn rank_of(self) -> (r: u8)
        ensures
            r == rank(self),
    {
        match self {
            LogLevel::Debug => 0,
            LogLevel::Info => 1,
            LogLevel::Warn => 2,
            LogLevel::Error => 3,
        }
    }
}

/// One numbered log entry.
#[derive(Clone, Debug)]
pub struct LogEntry {
    pub id: u64,
    pub time: String,
    pub level: String,
    pub message: String,
}

/// A log entry as values.
pub struct LogEntryView {
    pub id: u64,
    pub time: Seq<char>,
    pub level: Seq<char>,
    pub message: Seq<char>,
}

impl View for LogEntry {
    type V = LogEntryView;

    open spec fn view(&self) -> LogEntryView {
        LogEntryView { id: self.id, time: self.time@, level: self.level@, message: self.message@ }
    }
}

/// The views of a list of entries.
pub open spec fn entry_views(v: Seq<LogEntry>) -> Seq<LogEntryView> {
    v.map_values(|e: LogEntry| e@)
}

/// The log buffer: the entries kept, oldest first, the least level kept, the number
/// of the last entry, and how many entries are kept at most.
pub struct LogBuffer {
    entries: VecDeque<LogEntry>,
    min_level: LogLevel,
    next_id: u64,
    capacity: usize,
}

/// The log buffer as values.
pub struct LogBufferView {
    pub entries: Seq<LogEntryView>,
    pub min_level: LogLevel,
    pub last_id: u64,
    pub capacity: usize,
}

impl View for LogBuffer {
    type V = LogBufferView;

    closed spec fn view(&self) -> LogBufferView {
        LogBufferView {
            entries: entry_views(self.entries@),
            min_level: self.min_level,
            last_id: self.next_id,
            capacity: self.capacity,
        }
    }
}

/// What holds of every buffer: the entries are numbered in increasing order and none
/// is numbered past the last number given out.
pub open spec fn buffer_wf(b: LogBufferView) -> bool {
    &&& forall|i: int, j: int| 0 <= i < j < b.entries.len() ==> #[trigger] b.entries[i].id < #[trigger] b.entries[j].id
    &&& forall|i: int| 0 <= i < b.entries.len() ==> #[trigger] b.entries[i].id <= b.last_id
}

/// The entries after one more is logged: the oldest is dropped when the buffer is
/// full, and the new one goes last.
pub open spec fn entries_after_push(entries: Seq<LogEntryView>, capacity: usize, e: LogEntryView) -> Seq<LogEntryView> {
    if entries.len() >= capacity && entries.len() > 0 {
        entries.drop_first().push(e)
    } else {
        entries.push(e)
    }
}

/// The entries numbered past `since`, in their order.
pub open spec fn entries_after(entries: Seq<LogEntryView>, since: u64) -> Seq<LogEntryView>
    decreases entries.len(),
{
    if entries.len() == 0 {
        Seq::empty()
    } else if entries.last().id > since {
        entries_after(entries.drop_last(), since).push(entries.last())
    } else {
        entries_after(entries.drop_last(), since)
    }
}

fn copy_entry(e: &LogEntry) -> (r: LogEntry)
    ensures
        r@ == e@,
{
    LogEntry { id: e.id, time: e.time.clone(), level: e.level.clone(), message: e.message.clone() }
}

impl LogBuffer {
    /// An empty buffer that keeps `capacity` entries and leaves out entries below
    /// `Info`.
    pub fn new(capacity: usize) -> (b: LogBuffer)
        ensures
            b@.entries.len() == 0,
            b@.min_level == LogLevel::Info,
            b@.last_id == 0,
            b@.capacity == capacity,
            buffer_wf(b@),
    {
        let b = LogBuffer { entries: VecDeque::new(), min_level: LogLevel::Info, next_id: 0, capacity };
        assert(entry_views(b.entries@) =~= Seq::<LogEntryView>::empty());
        b
    }

    /// Keeps only entries at the named level or above from now on.
    pub fn set_level(&mut self, level: &str)
        ensures
            final(self)@ == (LogBufferView { min_level: level_of(level@), ..old(self)@ }),
    {
        self.min_level = LogLevel::from_str(level);
    }

    /// Logs a message. An entry below the least level kept is left out and `None`
    /// returned; otherwise it gets the next number and the current time, the oldest
    /// entry is dropped when the buffer is full, and the entry is returned.
    pub fn push(&mut self, level: &str, message: &str) -> (r: Option<LogEntry>)
        requires
            old(self)@.last_id < u64::MAX,
            buffer_wf(old(self)@),
        ensures
            buffer_wf(final(self)@),
            rank(level_of(level@)) < rank(old(self)@.min_level) ==> r is None && final(self)@ == old(self)@,
            rank(level_of(level@)) >= rank(old(self)@.min_level) ==> {
                &&& r matches Some(e)
                &&& e@.id == old(self)@.last_id + 1
                &&& e@.level == level@
                &&& e@.message == message@
                &&& final(self)@ == (LogBufferView {
                    entries: entries_after_push(old(self)@.entries, old(self)@.capacity, e@),
                    last_id: e@.id,
                    ..old(self)@
                })
            },
    {
        if LogLevel::from_str(level).rank_of() < self.min_level.rank_of() {
            return None;
        }
        self.next_id = self.next_id + 1;
        let entry = LogEntry {
            id: self.next_id,
            time: utc_now_rfc3339(),
            level: level.to_owned(),
            message: message.to_owned(),
        };
        let ghost before = entry_views(self.entries@);
        if self.entries.len() >= self.capacity {
            self.entries.pop_front();
        }
        let ghost mid = entry_views(self.entries@);
        assert(mid =~= if before.len() >= self.capacity && before.len() > 0 {
            before.drop_first()
        } else {
            before
        });
        let copy = copy_entry(&entry);
        self.entries.push_back(copy);
        assert(entry_views(self.entries@) =~= mid.push(entry@));
        proof {
            let es = entry_views(self.entries@);
            assert forall|i: int, j: int| 0 <= i < j < es.len() implies #[trigger] es[i].id < #[trigger] es[j].id by {
                if j == es.len() - 1 {
                    assert(es[i] == mid[i]);
                    if before.len() >= self.capacity && before.len() > 0 {
                        assert(mid[i] == before[i + 1]);
                    } else {
                        assert(mid[i] == before[i]);
                    }
                } else if before.len() >= self.capacity && before.len() > 0 {
                    assert(es[i] == before[i + 1] && es[j] == before[j + 1]);
                } else {
                    assert(es[i] == before[i] && es[j] == before[j]);
                }
            }
            assert forall|i: int| 0 <= i < es.len() implies #[trigger] es[i].id <= self.next_id by {
                if i < es.len() - 1 {
                    if before.len() >= self.capacity && before.len() > 0 {
                        assert(es[i] == before[i + 1]);
                    } else {
                        assert(es[i] == before[i]);
                    }
                }
            }
        }
        Some(entry)
    }

    /// Copies of the entries kept, oldest first.
    pub fn entries(&self) -> (r: Vec<LogEntry>)
        ensures
            entry_views(r@) == self@.entries,
    {
        let mut r: Vec<LogEntry> = Vec::new();
        let mut i: usize = 0;
        while i < self.entries.len()
            invariant
                i <= self.entries@.len(),
                entry_views(r@) == entry_views(self.entries@).take(i as int),
            decreases self.entries@.len() - i,
        {
            let e = copy_entry(&self.entries[i]);
            let ghost ev = e@;
            let ghost before = entry_views(r@);
            assert(ev == entry_views(self.entries@)[i as int]);
            r.push(e);
            assert(entry_views(r@) =~= before.push(ev));
            assert(entry_views(self.entries@).take(i + 1) =~= entry_views(self.entries@).take(i as int).push(ev));
            i = i + 1;
        }
        assert(entry_views(self.entries@).take(self.entries@.len() as int) =~= entry_views(self.entries@));
        r
    }

    /// Copies of the entries numbered past `since`, oldest first.
    pub fn entries_since(&self, since: u64) -> (r: Vec<LogEntry>)
        ensures
            entry_views(r@) == entries_after(self@.entries, since),
    {
        let ghost all = entry_views(self.entries@);
        let mut r: Vec<LogEntry> = Vec::new();
        let mut i: usize = 0;
        while i < self.entries.len()
            invariant
                i <= self.entries@.len(),
                all == entry_views(self.entries@),
                entry_views(r@) == entries_after(all.take(i as int), since),
            decreases self.entries@.len() - i,
        {
            assert(all.take(i + 1).drop_last() =~= all.take(i as int));
            assert(all.take(i + 1).last() == all[i as int]);
            if self.entries[i].id > since {
                let e = copy_entry(&self.entries[i]);
                let ghost before = entry_views(r@);
                let ghost ev = e@;
                r.push(e);
                assert(entry_views(r@) =~= before.push(ev));
            }
            i = i + 1;
        }
        assert(all.take(self.entries@.len() as int) =~= all);
        r
    }

    /// How many entries are kept at most.
    pub fn capacity(&self) -> (n: usize)
        ensures
            n == self@.capacity,
    {
        self.capacity
    }
}

/// The buffer never holds more than its capacity, or one entry when its capacity is
/// zero: a push into a full buffer drops the oldest entry.
pub proof fn law_buffer_bounded(entries: Seq<LogEntryView>, capacity: usize, e: LogEntryView)
    requires
        entries.len() <= if capacity == 0 { 1 } else { capacity as int },
    ensures
        entries_after_push(entries, capacity, e).len() <= if capacity == 0 { 1 } else { capacity as int },
{
}

/// The entries numbered past `since` are those of the buffer with a larger number.
pub proof fn law_entries_since_filters(entries: Seq<LogEntryView>, since: u64)
    ensures
        forall|x: LogEntryView| entries_after(entries, since).contains(x) <==> (entries.contains(x) && x.id > since),
    decreases entries.len(),
{
    if entries.len() > 0 {
        law_entries_since_filters(entries.drop_last(), since);
        let rest = entries.drop_last();
        assert forall|x: LogEntryView| entries_after(entries, since).contains(x) <==> (entries.contains(x) && x.id > since) by {
            if entries.contains(x) {
                let k = choose|k: int| 0 <= k < entries.len() && entries[k] == x;
                if k < entries.len() - 1 {
                    assert(rest[k] == x);
                }
            }
            if rest.contains(x) {
                let k = choose|k: int| 0 <= k < rest.len() && rest[k] == x;
                assert(entries[k] == x);
            }
            if entries_after(entries, since).contains(x) {
                if entries.last().id > since {
                    let s = entries_after(rest, since).push(entries.last());
                    let k = choose|k: int| 0 <= k < s.len() && s[k] == x;
                    if k < s.len() - 1 {
                        assert(entries_after(rest, since)[k] == x);
                    }
                }
            }
            if entries.contains(x) && x.id > since && entries.last().id > since {
                let s = entries_after(rest, since).push(entries.last());
                if x == entries.last() {
                    assert(s[s.len() - 1] == x);
                } else {
                    assert(entries_after(rest, since).contains(x));
                    let k = choose|k: int| 0 <= k < entries_after(rest, since).len() && entries_after(rest, since)[k] == x;
                    assert(s[k] == x);
                }
            }
        }
    }
}

} // verus!
