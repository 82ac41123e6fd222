//! The in-memory log that the user interface polls.
use vstd::prelude::*;
use crate::text::string_views;

verus! {

/// Severity of a log message.
#[derive(Debug, Clone, Copy, PartialEq, Eq, Structural)]
pub enum LogLevel {
    Debug,
    Info,
    Warn,
    Error,
}

pub open spec fn level_text(l: LogLevel) -> Seq<char> {
    match l {
        LogLevel::Debug => "DEBUG"@,
        LogLevel::Info => "INFO"@,
        LogLevel::Warn => "WARN"@,
        LogLevel::Error => "ERROR"@,
    }
}

impl LogLevel {
    pub fn as_str(&self) -> (r: &'static str)
        ensures
            r@ == level_text(*self),
    {
        match self {
            LogLevel::Debug => "DEBUG",
            LogLevel::Info => "INFO",
            LogLevel::Warn => "WARN",
            LogLevel::Error => "ERROR",
        }
    }
}

/// Most entries the buffer keeps; older ones are dropped first.
pub const LOG_CAPACITY: usize = 1000;

/// Log lines waiting to be polled, oldest first.
pub struct LogBuffer {
    entries: Vec<String>,
}

pub open spec fn entry_text(level: LogLevel, message: Seq<char>) -> Seq<char> {
    "["@ + level_text(level) + "] "@ + message
}

/// `s` with `x` appended, then cut to its last `LOG_CAPACITY` entries.
pub open spec fn appended(s: Seq<Seq<char>>, x: Seq<char>) -> Seq<Seq<char>> {
    let t = s.push(x);
    if t.len() > LOG_CAPACITY {
        t.subrange(t.len() - LOG_CAPACITY, t.len() as int)
    } else {
        t
    }
}

impl LogBuffer {
    pub closed spec fn entries_view(&self) -> Seq<Seq<char>> {
        string_views(self.entries@)
    }

    pub fn new() -> (r: Self)
        ensures
            r.entries_view().len() == 0,
    {
        LogBuffer { entries: Vec::new() }
    }

    /// Appends `[LEVEL] message`, keeping at most `LOG_CAPACITY` entries.
    pub fn log_with_level(&mut self, message: &str, level: LogLevel)
        ensures
            final(self).entries_view() == appended(
                old(self).entries_view(),
                entry_text(level, message@),
            ),
    {
        let mut line = String::from_str("[");
        line.append(level.as_str());
        line.append("] ");
        line.append(message);
        let ghost before = string_views(self.entries@);
        self.entries.push(line);
        assert(string_views(self.entries@) =~= before.push(entry_text(level, message@)));
        if self.entries.len() > LOG_CAPACITY {
            let extra = self.entries.len() - LOG_CAPACITY;
            self.entries = copy_range(&self.entries, extra, self.entries.len());
        }
    }

    /// Takes up to `limit` of the oldest entries out of the buffer.
    pub fn drain_logs(&mut self, limit: usize) -> (r: Vec<String>)
        ensures
            ({
                let n = if limit < old(self).entries_view().len() {
                    limit as int
                } else {
                    old(self).entries_view().len() as int
                };
                &&& string_views(r@) == old(self).entries_view().subrange(0, n)
                &&& final(self).entries_view() == old(self).entries_view().subrange(
                    n,
                    old(self).entries_view().len() as int,
                )
            }),
    {
        let n = if limit < self.entries.len() {
            limit
        } else {
            self.entries.len()
        };
        let taken = copy_range(&self.entries, 0, n);
        let rest = copy_range(&self.entries, n, self.entries.len());
        self.entries = rest;
        taken
    }
}

fn copy_range(v: &Vec<String>, lo: usize, hi: usize) -> (r: Vec<String>)
    requires
        lo <= hi <= v@.len(),
    ensures
        string_views(r@) == string_views(v@).subrange(lo as int, hi as int),
{
    let mut out: Vec<String> = Vec::new();
    let mut i = lo;
    while i < hi
        invariant
            lo <= i <= hi <= v@.len(),
            out@.len() == i - lo,
            forall|j: int| 0 <= j < i - lo ==> (#[trigger] out@[j])@ == v@[lo + j]@,
        decreases hi - i,
    {
        out.push(v[i].clone());
        i = i + 1;
    }
    assert(string_views(out@) =~= string_views(v@).subrange(lo as int, hi as int));
    out
}

/// Records an informational message.
pub fn log(buffer: &mut LogBuffer, message: &str)
    ensures
        final(buffer).entries_view() == appended(
            old(buffer).entries_view(),
            entry_text(LogLevel::Info, message@),
        ),
{
    buffer.log_with_level(message, LogLevel::Info);
}

/// Records a debugging message.
pub fn debug(buffer: &mut LogBuffer, message: &str)
    ensures
        final(buffer).entries_view() == appended(
            old(buffer).entries_view(),
            entry_text(LogLevel::Debug, message@),
        ),
{
    buffer.log_with_level(message, LogLevel::Debug);
}

/// Takes up to `limit` of the oldest entries out of the buffer.
pub fn drain_logs(buffer: &mut LogBuffer, limit: usize) -> (r: Vec<String>)
    ensures
        ({
            let n = if limit < old(buffer).entries_view().len() {
                limit as int
            } else {
                old(buffer).entries_view().len() as int
            };
            &&& string_views(r@) == old(buffer).entries_view().subrange(0, n)
            &&& final(buffer).entries_view() == old(buffer).entries_view().subrange(
                n,
                old(buffer).entries_view().len() as int,
            )
        }),
{
    buffer.drain_logs(limit)
}

} // verus!
