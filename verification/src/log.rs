//! Log entries and the buffer that replays them to clients that connect late.
use crate::text::{same, views};
use std::collections::VecDeque;
use vstd::prelude::*;

verus! {

// ---------------------------------------------------------------------------
// Levels
// ---------------------------------------------------------------------------

#[derive(Debug, Clone, Copy, PartialEq, Eq, Structural)]
pub enum LogLevel {
    Trace,
    Debug,
    Info,
    Warn,
    Error,
}

/// `tracing::Level`.
#[verifier::external_type_specification]
#[verifier::external_body]
pub struct ExLevel(tracing::Level);

/// The name of a `tracing::Level`.
pub uninterp spec fn level_name(level: tracing::Level) -> Seq<char>;

/// `Level::as_str` of tracing: the name of the level, one of `TRACE`, `DEBUG`,
/// `INFO`, `WARN` and `ERROR`.
pub assume_specification[ tracing::Level::as_str ](level: &tracing::Level) -> (r: &'static str)
    ensures
        r@ == level_name(*level),
        r@ == "TRACE"@ || r@ == "DEBUG"@ || r@ == "INFO"@ || r@ == "WARN"@ || r@ == "ERROR"@,
;

/// The name of a level.
pub open spec fn log_level_name(level: LogLevel) -> Seq<char> {
    match level {
        LogLevel::Trace => "TRACE"@,
        LogLevel::Debug => "DEBUG"@,
        LogLevel::Info => "INFO"@,
        LogLevel::Warn => "WARN"@,
        LogLevel::Error => "ERROR"@,
    }
}

/// The level with the given name.
pub open spec fn level_named(name: Seq<char>) -> Option<LogLevel> {
    if name == "TRACE"@ {
        Some(LogLevel::Trace)
    } else if name == "DEBUG"@ {
        Some(LogLevel::Debug)
    } else if name == "INFO"@ {
        Some(LogLevel::Info)
    } else if name == "WARN"@ {
        Some(LogLevel::Warn)
    } else if name == "ERROR"@ {
        Some(LogLevel::Error)
    } else {
        None
    }
}

pub fn parse_level(name: &str) -> (r: Option<LogLevel>)
    ensures
        r == level_named(name@),
{
    if same(name, "TRACE") {
        Some(LogLevel::Trace)
    } else if same(name, "DEBUG") {
        Some(LogLevel::Debug)
    } else if same(name, "INFO") {
        Some(LogLevel::Info)
    } else if same(name, "WARN") {
        Some(LogLevel::Warn)
    } else if same(name, "ERROR") {
        Some(LogLevel::Error)
    } else {
        None
    }
}

/// A level is found again under its name, and under no other.
pub proof fn law_level_names(level: LogLevel, name: Seq<char>)
    ensures
        level_named(name) == Some(level) <==> name == log_level_name(level),
{
    reveal_strlit("TRACE");
    reveal_strlit("DEBUG");
    reveal_strlit("INFO");
    reveal_strlit("WARN");
    reveal_strlit("ERROR");
    assert("TRACE"@[0] == 'T');
    assert("DEBUG"@[0] == 'D');
    assert("INFO"@[0] == 'I');
    assert("WARN"@[0] == 'W');
    assert("ERROR"@[0] == 'E');
}

/// The level that goes by the name of a tracing level.
pub open spec fn level_like(level: tracing::Level) -> LogLevel {
    match level_named(level_name(level)) {
        Some(l) => l,
        None => LogLevel::Error,
    }
}

impl<'a> From<&'a tracing::Level> for LogLevel {
    fn from(level: &'a tracing::Level) -> (r: Self) {
        match parse_level(level.as_str()) {
            Some(l) => l,
            None => LogLevel::Error,
        }
    }
}

impl<'a> vstd::std_specs::convert::FromSpecImpl<&'a tracing::Level> for LogLevel {
    open spec fn obeys_from_spec() -> bool {
        true
    }

    open spec fn from_spec(level: &'a tracing::Level) -> LogLevel {
        level_like(*level)
    }
}

/// The level of a tracing event. It bears the same name.
pub fn level_of(level: &tracing::Level) -> (r: LogLevel)
    ensures
        r == level_like(*level),
        log_level_name(r) == level_name(*level),
{
    let name = level.as_str();
    let r = LogLevel::from(level);
    proof {
        law_level_names(r, name@);
    }
    r
}

// ---------------------------------------------------------------------------
// Entries
// ---------------------------------------------------------------------------

/// A log entry, as clients get it.
#[derive(Debug)]
pub struct LogEntry {
    pub ts: String,
    pub level: LogLevel,
    pub target: String,
    pub message: String,
}

#[verifier::ext_equal]
pub struct LogEntryView {
    pub ts: Seq<char>,
    pub level: LogLevel,
    pub target: Seq<char>,
    pub message: Seq<char>,
}

impl View for LogEntry {
    type V = LogEntryView;

    open spec fn view(&self) -> LogEntryView {
        LogEntryView {
            ts: self.ts@,
            level: self.level,
            target: self.target@,
            message: self.message@,
        }
    }
}

impl Clone for LogEntry {
    fn clone(&self) -> (r: Self)
        ensures
            r@ == self@,
    {
        LogEntry {
            ts: self.ts.clone(),
            level: self.level,
            target: self.target.clone(),
            message: self.message.clone(),
        }
    }
}

/// What a field of a tracing event adds to a message: its value, and before it the
/// name of any field but the message itself.
pub open spec fn field_text(name: Seq<char>, value: Seq<char>) -> Seq<char> {
    if name == "message"@ {
        value
    } else {
        " "@ + name + "="@ + value
    }
}

/// Add a field of a tracing event to a message.
pub fn record_field(message: &mut String, name: &str, value: &str)
    ensures
        final(message)@ == old(message)@ + field_text(name@, value@),
{
    if same(name, "message") {
        message.append(value);
    } else {
        message.append(" ");
        message.append(name);
        message.append("=");
        message.append(value);
    }
    assert(message@ =~= old(message)@ + field_text(name@, value@));
}

/// An entry for a tracing event.
pub fn make_entry(ts: String, level: &tracing::Level, target: &str, message: String) -> (r:
    LogEntry)
    ensures
        r@ == (LogEntryView {
            ts: ts@,
            level: level_like(*level),
            target: target@,
            message: message@,
        }),
{
    LogEntry { ts, level: level_of(level), target: target.to_string(), message }
}

/// An entry for a tracing event that has just come. Nothing is said of its time.
pub fn make_entry_now(level: &tracing::Level, target: &str, message: String) -> (r: LogEntry)
    ensures
        r@.level == level_like(*level),
        r@.target == target@,
        r@.message == message@,
{
    make_entry(crate::clock::time_of_day(), level, target, message)
}

// ---------------------------------------------------------------------------
// The buffer
// ---------------------------------------------------------------------------

/// A buffer of the latest log entries.
pub struct LogBuffer {
    entries: VecDeque<LogEntry>,
    capacity: usize,
}

#[verifier::ext_equal]
pub struct LogBufferView {
    pub entries: Seq<LogEntryView>,
    pub capacity: nat,
}

impl View for LogBuffer {
    type V = LogBufferView;

    closed spec fn view(&self) -> LogBufferView {
        LogBufferView { entries: views(self.entries@), capacity: self.capacity as nat }
    }
}

impl LogBufferView {
    /// The buffer never holds more than its capacity.
    pub open spec fn wf(self) -> bool {
        self.entries.len() <= self.capacity
    }

    /// The buffer with one more entry, as far as its capacity goes.
    pub open spec fn pushed(self, entry: LogEntryView) -> LogBufferView {
        LogBufferView {
            entries: latest(self.entries.push(entry), self.capacity),
            capacity: self.capacity,
        }
    }
}

impl LogBuffer {
    pub fn new(capacity: usize) -> (r: Self)
        ensures
            r@.entries == Seq::<LogEntryView>::empty(),
            r@.capacity == capacity,
            r@.wf(),
    {
        let start: usize = if capacity < 65536 {
            capacity
        } else {
            65536
        };
        let r = LogBuffer { entries: VecDeque::with_capacity(start), capacity };
        assert(r@.entries =~= Seq::<LogEntryView>::empty());
        r
    }

    /// Add an entry; a full buffer drops its oldest, and one without room keeps none.
    pub fn push(&mut self, entry: LogEntry)
        requires
            old(self)@.wf(),
        ensures
            final(self)@ == old(self)@.pushed(entry@),
            final(self)@.wf(),
    {
        if self.capacity > 0 {
            if self.entries.len() >= self.capacity {
                let _ = self.entries.pop_front();
            }
            self.entries.push_back(entry);
        }
        assert(self@.entries =~= old(self)@.pushed(entry@).entries);
    }

    /// All entries, oldest first.
    #[verifier::loop_isolation(false)]
    pub fn snapshot(&self) -> (r: Vec<LogEntry>)
        ensures
            views(r@) == self@.entries,
    {
        broadcast use crate::text::group_views;

        let mut r: Vec<LogEntry> = Vec::new();
        let mut i: usize = 0;
        let ghost all = self@.entries;
        assert(all.take(0) =~= Seq::<LogEntryView>::empty());
        while i < self.entries.len()
            invariant
                i <= self.entries@.len(),
                views(r@) == all.take(i as int),
            decreases self.entries@.len() - i,
        {
            assert(all.take(i + 1) =~= all.take(i as int).push(self.entries@[i as int]@));
            r.push(self.entries[i].clone());
            i += 1;
        }
        assert(all.take(i as int) =~= all);
        r
    }
}

/// The buffer after several entries.
pub open spec fn filled(buffer: LogBufferView, entries: Seq<LogEntryView>) -> LogBufferView
    decreases entries.len(),
{
    if entries.len() == 0 {
        buffer
    } else {
        filled(buffer, entries.drop_last()).pushed(entries.last())
    }
}

/// The last `n` of some entries, or all of them.
pub open spec fn latest(entries: Seq<LogEntryView>, n: nat) -> Seq<LogEntryView> {
    if entries.len() <= n {
        entries
    } else {
        entries.skip(entries.len() - n)
    }
}

/// A buffer that was filled from empty replays the latest entries in the order they
/// came, as many as its capacity, and drops nothing before it is full.
pub proof fn law_buffer_keeps_the_latest(empty: LogBufferView, entries: Seq<LogEntryView>)
    requires
        empty.entries.len() == 0,
    ensures
        filled(empty, entries).entries == latest(entries, empty.capacity),
        filled(empty, entries).capacity == empty.capacity,
        filled(empty, entries).wf(),
    decreases entries.len(),
{
    if entries.len() == 0 {
        assert(filled(empty, entries).entries =~= latest(entries, empty.capacity));
    } else {
        law_buffer_keeps_the_latest(empty, entries.drop_last());
        let n = empty.capacity;
        let before = filled(empty, entries.drop_last());
        assert(before.entries == latest(entries.drop_last(), n));
        assert(before.pushed(entries.last()).entries =~= latest(entries, n));
    }
}

/// The levels are called by these names.
pub proof fn law_levels_are_these()
    ensures
        log_level_name(LogLevel::Trace) == "TRACE"@,
        log_level_name(LogLevel::Debug) == "DEBUG"@,
        log_level_name(LogLevel::Info) == "INFO"@,
        log_level_name(LogLevel::Warn) == "WARN"@,
        log_level_name(LogLevel::Error) == "ERROR"@,
{
}

/// A full buffer that takes an entry drops its oldest and keeps all the others in their
/// places before it; one that is not full drops nothing, and one without room keeps none.
pub proof fn law_full_buffers_drop_the_oldest(buffer: LogBufferView, entry: LogEntryView)
    requires
        buffer.wf(),
    ensures
        ({
            let after = buffer.pushed(entry);
            &&& after.capacity == buffer.capacity
            &&& buffer.entries.len() < buffer.capacity ==> after.entries == buffer.entries.push(
                entry,
            )
            &&& 0 < buffer.capacity == buffer.entries.len() ==> after.entries
                == buffer.entries.drop_first().push(entry)
            &&& buffer.capacity == 0 ==> after.entries.len() == 0
        }),
{
    let after = buffer.pushed(entry);
    if 0 < buffer.capacity == buffer.entries.len() {
        assert(after.entries =~= buffer.entries.drop_first().push(entry));
    }
}

/// The message of an event is its own text, and any other field is told by name.
pub proof fn law_fields_are_told_by_name(name: Seq<char>, value: Seq<char>)
    ensures
        field_text("message"@, value) == value,
        name != "message"@ ==> field_text(name, value) == " "@ + name + "="@ + value,
{
}

} // verus!
