use vstd::prelude::*;
use crate::text::{chars_contain, spec_contains, str_to_chars};

verus! {

/// One captured line of server output.
#[derive(Debug)]
pub struct LogEntry {
    pub timestamp: String,
    pub level: String,
    pub message: String,
}

/// The mathematical value of a `LogEntry`.
pub struct LogEntryView {
    pub timestamp: Seq<char>,
    pub level: Seq<char>,
    pub message: Seq<char>,
}

impl View for LogEntry {
    type V = LogEntryView;

    open spec fn view(&self) -> LogEntryView {
        LogEntryView {
            timestamp: self.timestamp@,
            level: self.level@,
            message: self.message@,
        }
    }
}

impl LogEntry {
    /// A field-for-field copy.
    pub fn snapshot(&self) -> (r: LogEntry)
        ensures
            r == *self,
    {
        LogEntry {
            timestamp: self.timestamp.clone(),
            level: self.level.clone(),
            message: self.message.clone(),
        }
    }
}

/// The append-only, capped ring of log records.
#[derive(Debug)]
pub struct LogsState {
    pub entries: Vec<LogEntry>,
    pub max_entries: usize,
}

/// The level derived from a line's content: case-marked "error" and "warning"
/// tokens win, in that order; everything else is informational. This is a
/// substring heuristic, kept as the sink's contract, not a semantic guarantee.
pub open spec fn spec_level_of(line: Seq<char>) -> Seq<char> {
    if spec_contains(line, "ERROR"@) || spec_contains(line, "error"@) {
        "error"@
    } else if spec_contains(line, "WARN"@) || spec_contains(line, "warning"@) {
        "warning"@
    } else {
        "info"@
    }
}

pub fn classify_level(line: &str) -> (s: String)
    ensures
        s@ == spec_level_of(line@),
{
    let hay = str_to_chars(line);
    let upper_err = str_to_chars("ERROR");
    let lower_err = str_to_chars("error");
    if chars_contain(&hay, &upper_err) || chars_contain(&hay, &lower_err) {
        return String::from_str("error");
    }
    let upper_warn = str_to_chars("WARN");
    let lower_warn = str_to_chars("warning");
    if chars_contain(&hay, &upper_warn) || chars_contain(&hay, &lower_warn) {
        return String::from_str("warning");
    }
    String::from_str("info")
}

/// The sink contents after one append: the record goes at the end, and the
/// oldest records are evicted until at most `max` remain.
pub open spec fn spec_append(entries: Seq<LogEntry>, max: nat, e: LogEntry) -> Seq<LogEntry> {
    let s = entries.push(e);
    if s.len() > max {
        s.skip(s.len() - max)
    } else {
        s
    }
}

/// The most recent `max` records of a history (all of them if it is shorter).
pub open spec fn spec_retained(all: Seq<LogEntry>, max: nat) -> Seq<LogEntry> {
    if all.len() > max {
        all.skip(all.len() - max)
    } else {
        all
    }
}

/// The sink contents after appending each record of `msgs`, in order.
pub open spec fn spec_append_all(
    entries: Seq<LogEntry>,
    max: nat,
    msgs: Seq<LogEntry>,
) -> Seq<LogEntry>
    decreases msgs.len(),
{
    if msgs.len() == 0 {
        entries
    } else {
        spec_append(spec_append_all(entries, max, msgs.drop_last()), max, msgs.last())
    }
}

/// Relies on `chrono::Local::now` and its `format`: the wall-clock time,
/// rendered to millisecond precision. Nothing is assumed of the value.
#[verifier::external_body]
fn now_timestamp() -> String {
    chrono::Local::now().format("%Y-%m-%d %H:%M:%S%.3f").to_string()
}

impl LogsState {
    /// At most `max_entries` records are ever held.
    pub open spec fn wf(self) -> bool {
        self.entries@.len() <= self.max_entries
    }

    /// An empty sink with the default cap.
    pub fn new() -> (s: LogsState)
        ensures
            s.entries@ == Seq::<LogEntry>::empty(),
            s.max_entries == 5000,
            s.wf(),
    {
        LogsState { entries: Vec::new(), max_entries: 5000 }
    }

    /// Appends one record, then evicts the oldest records down to the cap.
    pub fn append_entry(&mut self, e: LogEntry)
        ensures
            final(self).max_entries == old(self).max_entries,
            final(self).entries@ == spec_append(
                old(self).entries@,
                old(self).max_entries as nat,
                e,
            ),
            final(self).wf(),
    {
        self.entries.push(e);
        while self.entries.len() > self.max_entries
            invariant
                self.max_entries == old(self).max_entries,
                self.entries@.len() <= old(self).entries@.len() + 1,
                self.entries@.len() >= old(self).max_entries || self.entries@.len() == old(
                    self,
                ).entries@.len() + 1,
                self.entries@ == old(self).entries@.push(e).skip(
                    old(self).entries@.len() + 1 - self.entries@.len(),
                ),
            decreases self.entries@.len(),
        {
            self.entries.remove(0);
            assert(self.entries@ =~= old(self).entries@.push(e).skip(
                old(self).entries@.len() + 1 - self.entries@.len(),
            ));
        }
        assert(self.entries@ =~= spec_append(
            old(self).entries@,
            old(self).max_entries as nat,
            e,
        ));
    }

    /// Stamps and appends a record with the given level and message.
    pub fn add_entry_now(&mut self, level: &str, message: String) -> (e: LogEntry)
        ensures
            final(self).max_entries == old(self).max_entries,
            final(self).entries@ == spec_append(
                old(self).entries@,
                old(self).max_entries as nat,
                e,
            ),
            e.level@ == level@,
            e.message@ == message@,
            final(self).wf(),
    {
        let e = LogEntry {
            timestamp: now_timestamp(),
            level: String::from_str(level),
            message,
        };
        let stored = e.snapshot();
        self.append_entry(stored);
        e
    }

    /// Classifies and appends one line captured from the child's output.
    /// Lines read from the error stream are recorded as errors regardless of
    /// content; others get the level their content implies.
    pub fn capture_line(&mut self, line: String, from_stderr: bool) -> (e: LogEntry)
        ensures
            final(self).max_entries == old(self).max_entries,
            final(self).entries@ == spec_append(
                old(self).entries@,
                old(self).max_entries as nat,
                e,
            ),
            e.level@ == if from_stderr {
                "error"@
            } else {
                spec_level_of(line@)
            },
            e.message@ == line@,
            final(self).wf(),
    {
        let level = if from_stderr {
            String::from_str("error")
        } else {
            classify_level(line.as_str())
        };
        let e = LogEntry { timestamp: now_timestamp(), level, message: line };
        let stored = e.snapshot();
        self.append_entry(stored);
        e
    }

    /// A copy of the records, oldest first.
    pub fn snapshot_entries(&self) -> (v: Vec<LogEntry>)
        ensures
            v@ == self.entries@,
    {
        let mut v: Vec<LogEntry> = Vec::new();
        let n = self.entries.len();
        let mut i: usize = 0;
        while i < n
            invariant
                n == self.entries@.len(),
                i <= n,
                v@ == self.entries@.subrange(0, i as int),
            decreases n - i,
        {
            v.push(self.entries[i].snapshot());
            assert(v@ =~= self.entries@.subrange(0, (i + 1) as int));
            i = i + 1;
        }
        assert(v@ =~= self.entries@);
        v
    }

    /// Empties the records; the cap is kept.
    pub fn clear(&mut self)
        ensures
            final(self).entries@ == Seq::<LogEntry>::empty(),
            final(self).max_entries == old(self).max_entries,
            final(self).wf(),
    {
        self.entries.clear();
    }
}

/// Closed form for a batch of appends: the sink holds the most recent `max`
/// records of the whole history, in order.
pub proof fn lemma_append_all(entries: Seq<LogEntry>, max: nat, msgs: Seq<LogEntry>)
    requires
        entries.len() <= max,
    ensures
        spec_append_all(entries, max, msgs) == spec_retained(entries + msgs, max),
    decreases msgs.len(),
{
    if msgs.len() == 0 {
        assert(entries + msgs =~= entries);
        assert(spec_retained(entries + msgs, max) == entries);
    } else {
        lemma_append_all(entries, max, msgs.drop_last());
        let prev = spec_append_all(entries, max, msgs.drop_last());
        let before = entries + msgs.drop_last();
        assert(prev == spec_retained(before, max));
        let all = entries + msgs;
        assert(all =~= before.push(msgs.last()));
        if before.len() > max {
            let d = before.len() - max;
            assert(prev == before.skip(d));
            assert(prev.push(msgs.last()) =~= all.skip(d));
            assert(prev.len() == max);
            assert(spec_append(prev, max, msgs.last()) =~= all.skip(d + 1));
            assert(d + 1 == all.len() - max);
        } else {
            assert(prev == before);
            assert(prev.push(msgs.last()) =~= all);
            if all.len() > max {
                assert(spec_append(prev, max, msgs.last()) =~= all.skip(all.len() - max));
            } else {
                assert(spec_append(prev, max, msgs.last()) =~= all);
            }
        }
    }
}

/// Appending more than `max` records to a well-formed sink retains exactly
/// the most recent `max` of them, in arrival order.
pub proof fn lemma_capped_retention(entries: Seq<LogEntry>, max: nat, msgs: Seq<LogEntry>)
    requires
        entries.len() <= max,
        msgs.len() > max,
    ensures
        spec_append_all(entries, max, msgs) == msgs.skip(msgs.len() - max),
{
    lemma_append_all(entries, max, msgs);
    let all = entries + msgs;
    assert(spec_retained(all, max) =~= msgs.skip(msgs.len() - max));
}

} // verus!
