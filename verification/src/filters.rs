//! The filters of a log query: by level, by pattern, by time.

use vstd::prelude::*;
use vstd::string::StringExecFns;

use crate::error::VelosError;
use crate::log_engine::{LogLevel, ProcessedEntry, ProcessedEntryView};
use crate::outside::{
    lowercase, pattern_error, pattern_matches, regex_error_text, regex_matches, regex_valid,
    to_lowercase,
};
use crate::protocol::{views, LogEntry, LogEntryView};
use crate::text::{
    chars_of, parse_u64, parse_u64_text, pieces, split, str_eq,
    string_of_slice, texts, trim, trimmed,
};

verus! {

// ------------------------------------------------------------------
// Levels
// ------------------------------------------------------------------
/// The level that a lower-case name in a level filter stands for.
pub open spec fn filter_level(name: Seq<char>) -> Option<LogLevel> {
    if name == "debug"@ {
        Some(LogLevel::Debug)
    } else if name == "info"@ {
        Some(LogLevel::Info)
    } else if name == "warn"@ || name == "warning"@ {
        Some(LogLevel::Warn)
    } else if name == "error"@ || name == "err"@ {
        Some(LogLevel::Error)
    } else if name == "fatal"@ {
        Some(LogLevel::Fatal)
    } else {
        None
    }
}

/// The levels that a list of names stands for, in order; names that stand
/// for none are passed over. A name counts without the white space around
/// it and in lower case.
pub open spec fn levels_of(names: Seq<Seq<char>>) -> Seq<LogLevel>
    decreases names.len(),
{
    if names.len() == 0 {
        Seq::empty()
    } else {
        match filter_level(lowercase(trimmed(names.last()))) {
            Some(l) => levels_of(names.drop_last()).push(l),
            None => levels_of(names.drop_last()),
        }
    }
}

/// The levels of a comma-separated level filter such as `error,warn`.
pub open spec fn parsed_levels(filter: Seq<char>) -> Seq<LogLevel> {
    levels_of(pieces(filter, ','))
}

/// Tells the level that a lower-case name stands for.
fn level_of(name: &str) -> (r: Option<LogLevel>)
    ensures
        r == filter_level(name@),
{
    if str_eq(name, "debug") {
        Some(LogLevel::Debug)
    } else if str_eq(name, "info") {
        Some(LogLevel::Info)
    } else if str_eq(name, "warn") || str_eq(name, "warning") {
        Some(LogLevel::Warn)
    } else if str_eq(name, "error") || str_eq(name, "err") {
        Some(LogLevel::Error)
    } else if str_eq(name, "fatal") {
        Some(LogLevel::Fatal)
    } else {
        None
    }
}

/// Reads a comma-separated level filter.
pub fn parse_levels(levels_str: &str) -> (out: Vec<LogLevel>)
    ensures
        out@ == parsed_levels(levels_str@),
{
    let chars = chars_of(levels_str);
    let names = split(chars.as_slice(), ',');
    let mut out: Vec<LogLevel> = Vec::new();
    let mut i: usize = 0;
    assert(texts(names@).take(0) =~= Seq::<Seq<char>>::empty());
    while i < names.len()
        invariant
            i <= names.len(),
            out@ == levels_of(texts(names@).take(i as int)),
        decreases names.len() - i,
    {
        assert(texts(names@).take(i + 1).drop_last() =~= texts(names@).take(i as int));
        assert(texts(names@).take(i + 1).last() == names@[i as int]@);
        let name = string_of_slice(trim(names[i].as_slice()));
        let lower = to_lowercase(name.as_str());
        match level_of(lower.as_str()) {
            Some(l) => {
                out.push(l);
            },
            None => {},
        }
        i += 1;
    }
    assert(texts(names@).take(names@.len() as int) =~= texts(names@));
    out
}

// ------------------------------------------------------------------
// Selecting entries
// ------------------------------------------------------------------
/// The entries that satisfy `keep`, in order.
pub open spec fn retained(
    entries: Seq<ProcessedEntryView>,
    keep: spec_fn(ProcessedEntryView) -> bool,
) -> Seq<ProcessedEntryView>
    decreases entries.len(),
{
    if entries.len() == 0 {
        Seq::empty()
    } else if keep(entries.last()) {
        retained(entries.drop_last(), keep).push(entries.last())
    } else {
        retained(entries.drop_last(), keep)
    }
}

/// Filtering keeps no entry that fails the test and loses none that
/// passes it.
pub proof fn lemma_retained(
    entries: Seq<ProcessedEntryView>,
    keep: spec_fn(ProcessedEntryView) -> bool,
)
    ensures
        retained(entries, keep).len() <= entries.len(),
        forall|i: int|
            0 <= i < retained(entries, keep).len() ==> keep(#[trigger] retained(entries, keep)[i]),
        forall|i: int|
            0 <= i < entries.len() && keep(#[trigger] entries[i]) ==> retained(
                entries,
                keep,
            ).contains(entries[i]),
    decreases entries.len(),
{
    if entries.len() > 0 {
        let front = entries.drop_last();
        lemma_retained(front, keep);
        let kept = retained(entries, keep);
        assert forall|i: int| 0 <= i < entries.len() && keep(#[trigger] entries[i]) implies kept.contains(
            entries[i],
        ) by {
            if i < front.len() {
                assert(front[i] == entries[i]);
                let j = choose|j: int| 0 <= j < retained(front, keep).len() && retained(front, keep)[j] == entries[i];
                assert(kept[j] == entries[i]);
            } else {
                assert(kept[kept.len() - 1] == entries[i]);
            }
        }
    }
}

/// Copies the entries whose mark is set.
fn select(entries: &[ProcessedEntry], marks: &Vec<bool>, Ghost(keep): Ghost<
    spec_fn(ProcessedEntryView) -> bool,
>) -> (out: Vec<ProcessedEntry>)
    requires
        marks@.len() == entries@.len(),
        forall|i: int| 0 <= i < marks@.len() ==> marks@[i] == keep(#[trigger] entries@[i]@),
    ensures
        views(out@) == retained(views(entries@), keep),
{
    let mut out: Vec<ProcessedEntry> = Vec::new();
    let mut i: usize = 0;
    assert(views(entries@).take(0) =~= Seq::<ProcessedEntryView>::empty());
    assert(views(out@) =~= Seq::<ProcessedEntryView>::empty());
    while i < entries.len()
        invariant
            i <= entries.len(),
            marks@.len() == entries@.len(),
            forall|j: int| 0 <= j < marks@.len() ==> marks@[j] == keep(#[trigger] entries@[j]@),
            views(out@) == retained(views(entries@).take(i as int), keep),
        decreases entries.len() - i,
    {
        let ghost before = views(out@);
        assert(views(entries@).take(i + 1).drop_last() =~= views(entries@).take(i as int));
        assert(views(entries@).take(i + 1).last() == entries@[i as int]@);
        if marks[i] {
            out.push(entries[i].duplicate());
            assert(views(out@) =~= before.push(entries@[i as int]@));
        }
        i += 1;
    }
    assert(views(entries@).take(entries@.len() as int) =~= views(entries@));
    out
}

/// Tells whether `level` is among `allowed`.
fn level_allowed(allowed: &Vec<LogLevel>, level: LogLevel) -> (r: bool)
    ensures
        r == allowed@.contains(level),
{
    let mut i: usize = 0;
    while i < allowed.len()
        invariant
            i <= allowed.len(),
            forall|j: int| 0 <= j < i ==> allowed@[j] != level,
        decreases allowed.len() - i,
    {
        if allowed[i] == level {
            return true;
        }
        i += 1;
    }
    false
}

/// Keeps the entries whose level is among `allowed`.
pub fn filter_levels(entries: &[ProcessedEntry], allowed: &Vec<LogLevel>) -> (out: Vec<
    ProcessedEntry,
>)
    ensures
        views(out@) == retained(
            views(entries@),
            |e: ProcessedEntryView| allowed@.contains(e.level),
        ),
{
    let ghost keep = |e: ProcessedEntryView| allowed@.contains(e.level);
    let mut marks: Vec<bool> = Vec::new();
    let mut i: usize = 0;
    while i < entries.len()
        invariant
            i <= entries.len(),
            forall|e: ProcessedEntryView| #[trigger] keep(e) == allowed@.contains(e.level),
            marks@.len() == i,
            forall|j: int| 0 <= j < i ==> marks@[j] == keep(#[trigger] entries@[j]@),
        decreases entries.len() - i,
    {
        marks.push(level_allowed(allowed, entries[i].level));
        i += 1;
    }
    select(entries, &marks, Ghost(keep))
}

/// Keeps the entries from `since_ms` on.
pub fn filter_since(entries: &[ProcessedEntry], since_ms: u64) -> (out: Vec<ProcessedEntry>)
    ensures
        views(out@) == retained(
            views(entries@),
            |e: ProcessedEntryView| e.timestamp_ms >= since_ms,
        ),
{
    let ghost keep = |e: ProcessedEntryView| e.timestamp_ms >= since_ms;
    let mut marks: Vec<bool> = Vec::new();
    let mut i: usize = 0;
    while i < entries.len()
        invariant
            i <= entries.len(),
            forall|e: ProcessedEntryView| #[trigger] keep(e) == (e.timestamp_ms >= since_ms),
            marks@.len() == i,
            forall|j: int| 0 <= j < i ==> marks@[j] == keep(#[trigger] entries@[j]@),
        decreases entries.len() - i,
    {
        marks.push(entries[i].timestamp_ms >= since_ms);
        i += 1;
    }
    select(entries, &marks, Ghost(keep))
}

/// Keeps the entries up to `until_ms`.
pub fn filter_until(entries: &[ProcessedEntry], until_ms: u64) -> (out: Vec<ProcessedEntry>)
    ensures
        views(out@) == retained(
            views(entries@),
            |e: ProcessedEntryView| e.timestamp_ms <= until_ms,
        ),
{
    let ghost keep = |e: ProcessedEntryView| e.timestamp_ms <= until_ms;
    let mut marks: Vec<bool> = Vec::new();
    let mut i: usize = 0;
    while i < entries.len()
        invariant
            i <= entries.len(),
            forall|e: ProcessedEntryView| #[trigger] keep(e) == (e.timestamp_ms <= until_ms),
            marks@.len() == i,
            forall|j: int| 0 <= j < i ==> marks@[j] == keep(#[trigger] entries@[j]@),
        decreases entries.len() - i,
    {
        marks.push(entries[i].timestamp_ms <= until_ms);
        i += 1;
    }
    select(entries, &marks, Ghost(keep))
}

/// Keeps the entries whose message the regular expression `pattern`
/// matches. Fails when `pattern` is no regular expression; `what` says in
/// the message which pattern that was, as in `invalid grep pattern: ...`.
pub fn filter_matching(entries: &[ProcessedEntry], pattern: &str, what: &str) -> (r: Result<
    Vec<ProcessedEntry>,
    VelosError,
>)
    ensures
        match r {
            Ok(out) => regex_valid(pattern@) && views(out@) == retained(
                views(entries@),
                |e: ProcessedEntryView| regex_matches(pattern@, e.message),
            ),
            Err(e) => !regex_valid(pattern@) && e.is_protocol(
                "invalid "@ + what@ + " pattern: "@ + regex_error_text(pattern@),
            ),
        },
{
    match pattern_error(pattern) {
        Some(cause) => {
            let mut msg = String::from_str("invalid ");
            msg.append(what);
            msg.append(" pattern: ");
            msg.append(cause.as_str());
            return Err(VelosError::ProtocolError(msg));
        },
        None => {},
    }
    let ghost keep = |e: ProcessedEntryView| regex_matches(pattern@, e.message);
    let mut marks: Vec<bool> = Vec::new();
    let mut i: usize = 0;
    while i < entries.len()
        invariant
            i <= entries.len(),
            regex_valid(pattern@),
            forall|e: ProcessedEntryView|
                #[trigger] keep(e) == regex_matches(pattern@, e.message),
            marks@.len() == i,
            forall|j: int| 0 <= j < i ==> marks@[j] == keep(#[trigger] entries@[j]@),
        decreases entries.len() - i,
    {
        let hit: bool = match pattern_matches(pattern, entries[i].message.as_str()) {
            Some(b) => b,
            None => false,
        };
        marks.push(hit);
        i += 1;
    }
    Ok(select(entries, &marks, Ghost(keep)))
}

/// The number that stands for a level name in a request for raw entries:
/// 3 for `error`, 2 for `warn`, 1 for `info`, 0 for `debug`, and 255, the
/// level of no entry, for any other name.
pub open spec fn raw_level_number(name: Seq<char>) -> u8 {
    if name == "error"@ {
        3
    } else if name == "warn"@ {
        2
    } else if name == "info"@ {
        1
    } else if name == "debug"@ {
        0
    } else {
        255
    }
}

/// The raw entries at `level`, in order.
pub open spec fn raw_at_level(entries: Seq<LogEntryView>, level: u8) -> Seq<LogEntryView>
    decreases entries.len(),
{
    if entries.len() == 0 {
        Seq::empty()
    } else if entries.last().level == level {
        raw_at_level(entries.drop_last(), level).push(entries.last())
    } else {
        raw_at_level(entries.drop_last(), level)
    }
}

/// Tells the number that stands for a level name.
pub fn level_number(name: &str) -> (n: u8)
    ensures
        n == raw_level_number(name@),
{
    if str_eq(name, "error") {
        3
    } else if str_eq(name, "warn") {
        2
    } else if str_eq(name, "info") {
        1
    } else if str_eq(name, "debug") {
        0
    } else {
        255
    }
}

/// Keeps the raw entries at the level that `name` stands for.
pub fn filter_raw_level(entries: Vec<LogEntry>, name: &str) -> (out: Vec<LogEntry>)
    ensures
        views(out@) == raw_at_level(views(entries@), raw_level_number(name@)),
{
    let level: u8 = level_number(name);
    let mut out: Vec<LogEntry> = Vec::new();
    let mut i: usize = 0;
    assert(views(entries@).take(0) =~= Seq::<LogEntryView>::empty());
    assert(views(out@) =~= Seq::<LogEntryView>::empty());
    while i < entries.len()
        invariant
            i <= entries.len(),
            views(out@) == raw_at_level(views(entries@).take(i as int), level),
        decreases entries.len() - i,
    {
        let ghost before = views(out@);
        assert(views(entries@).take(i + 1).drop_last() =~= views(entries@).take(i as int));
        assert(views(entries@).take(i + 1).last() == entries@[i as int]@);
        if entries[i].level == level {
            let e = &entries[i];
            out.push(
                LogEntry {
                    timestamp_ms: e.timestamp_ms,
                    level: e.level,
                    stream: e.stream,
                    message: e.message.clone(),
                },
            );
            assert(views(out@) =~= before.push(entries@[i as int]@));
        }
        i += 1;
    }
    assert(views(entries@).take(entries@.len() as int) =~= views(entries@));
    out
}

// ------------------------------------------------------------------
// Time specifications
// ------------------------------------------------------------------
/// The milliseconds in the unit that a suffix stands for.
pub open spec fn unit_ms(c: char) -> Option<nat> {
    if c == 'h' {
        Some(3600000)
    } else if c == 'm' {
        Some(60000)
    } else if c == 'd' {
        Some(86400000)
    } else if c == 's' {
        Some(1000)
    } else {
        None
    }
}

/// The point in time, in milliseconds, that a specification stands for at
/// the time `now_ms`: `1h`, `30m`, `2d` or `45s` is that long ago, but not
/// before time zero; a bare number is a timestamp. The error is the
/// message for a specification that is neither.
pub open spec fn time_of(spec: Seq<char>, now_ms: u64) -> Result<u64, Seq<char>> {
    let t = trimmed(spec);
    if t.len() > 0 && unit_ms(t.last()) is Some {
        match parse_u64_text(t.drop_last()) {
            Some(n) => if n * unit_ms(t.last())->0 >= now_ms {
                Ok(0)
            } else {
                Ok((now_ms - n * unit_ms(t.last())->0) as u64)
            },
            None => Err("invalid time: "@ + t),
        }
    } else {
        match parse_u64_text(t) {
            Some(ms) => Ok(ms),
            None => Err(
                "unsupported time format: "@ + t + " (use: 1h, 30m, 2d, or ms timestamp)"@,
            ),
        }
    }
}

/// The milliseconds in the unit that a suffix stands for.
fn unit_of(c: char) -> (r: Option<u64>)
    ensures
        match r {
            Some(m) => unit_ms(c) == Some(m as nat) && m > 0,
            None => unit_ms(c) is None,
        },
{
    if c == 'h' {
        Some(3600000)
    } else if c == 'm' {
        Some(60000)
    } else if c == 'd' {
        Some(86400000)
    } else if c == 's' {
        Some(1000)
    } else {
        None
    }
}

/// Reads a time specification at the time `now_ms`.
pub fn parse_time_spec(spec: &str, now_ms: u64) -> (r: Result<u64, VelosError>)
    ensures
        match time_of(spec@, now_ms) {
            Ok(ms) => r matches Ok(x) && x == ms,
            Err(m) => r matches Err(e) && e.is_protocol(m),
        },
{
    let chars = chars_of(spec);
    let t = trim(chars.as_slice());
    if t.len() > 0 {
        match unit_of(t[t.len() - 1]) {
            Some(unit) => {
                let number = vstd::slice::slice_subrange(t, 0, t.len() - 1);
                assert(number@ =~= t@.drop_last());
                match parse_u64(number) {
                    Some(n) => {
                        if n >= now_ms / unit + 1 {
                            assert(n * unit >= now_ms) by (nonlinear_arith)
                                requires
                                    n >= now_ms / unit + 1,
                                    unit > 0,
                            ;
                            return Ok(0);
                        }
                        assert(n * unit <= now_ms) by (nonlinear_arith)
                            requires
                                n <= now_ms / unit,
                                unit > 0,
                        ;
                        let back: u64 = n * unit;
                        return Ok(now_ms - back);
                    },
                    None => {
                        let mut msg = String::from_str("invalid time: ");
                        let text = string_of_slice(t);
                        msg.append(text.as_str());
                        return Err(VelosError::ProtocolError(msg));
                    },
                }
            },
            None => {},
        }
    }
    match parse_u64(t) {
        Some(ms) => Ok(ms),
        None => {
            let mut msg = String::from_str("unsupported time format: ");
            let text = string_of_slice(t);
            msg.append(text.as_str());
            msg.append(" (use: 1h, 30m, 2d, or ms timestamp)");
            Err(VelosError::ProtocolError(msg))
        },
    }
}

// ------------------------------------------------------------------
// A whole log query
// ------------------------------------------------------------------
/// The arguments of the logs command.
pub struct LogsArgs {
    pub name: String,
    pub lines: u32,
    pub json: bool,
    pub ai: bool,
    pub grep: Option<String>,
    pub level: Option<String>,
    pub since: Option<String>,
    pub until: Option<String>,
    pub dedupe: bool,
    pub summary: bool,
}

/// The forms in which the logs command shows its result.
#[derive(Debug, Clone, Copy, PartialEq, Eq, Structural)]
pub enum LogsOutput {
    Summary,
    Dedupe,
    Json,
    Ai,
    Plain,
}

/// The entries left by an optional level filter.
pub open spec fn after_levels(entries: Seq<ProcessedEntryView>, level: Option<String>) -> Seq<
    ProcessedEntryView,
> {
    match level {
        Some(l) => retained(
            entries,
            |e: ProcessedEntryView| parsed_levels(l@).contains(e.level),
        ),
        None => entries,
    }
}

/// The entries left by an optional pattern, or the message of the error
/// where the pattern is no regular expression.
pub open spec fn after_grep(entries: Seq<ProcessedEntryView>, grep: Option<String>) -> Result<
    Seq<ProcessedEntryView>,
    Seq<char>,
> {
    match grep {
        Some(p) => if regex_valid(p@) {
            Ok(retained(entries, |e: ProcessedEntryView| regex_matches(p@, e.message)))
        } else {
            Err("invalid "@ + "grep"@ + " pattern: "@ + regex_error_text(p@))
        },
        None => Ok(entries),
    }
}

/// The entries left by an optional lower bound in time.
pub open spec fn after_since(
    entries: Seq<ProcessedEntryView>,
    since: Option<String>,
    now_ms: u64,
) -> Result<Seq<ProcessedEntryView>, Seq<char>> {
    match since {
        Some(s) => match time_of(s@, now_ms) {
            Ok(t) => Ok(retained(entries, |e: ProcessedEntryView| e.timestamp_ms >= t)),
            Err(m) => Err(m),
        },
        None => Ok(entries),
    }
}

/// The entries left by an optional upper bound in time.
pub open spec fn after_until(
    entries: Seq<ProcessedEntryView>,
    until: Option<String>,
    now_ms: u64,
) -> Result<Seq<ProcessedEntryView>, Seq<char>> {
    match until {
        Some(s) => match time_of(s@, now_ms) {
            Ok(t) => Ok(retained(entries, |e: ProcessedEntryView| e.timestamp_ms <= t)),
            Err(m) => Err(m),
        },
        None => Ok(entries),
    }
}

impl LogsArgs {
    /// The entries that the query selects at the time `now_ms`: those that
    /// pass the level filter, then the pattern, then the two bounds in
    /// time, each where it is given. The error is that of the first
    /// filter, in this order, that cannot be read.
    pub open spec fn selected(self, entries: Seq<ProcessedEntryView>, now_ms: u64) -> Result<
        Seq<ProcessedEntryView>,
        Seq<char>,
    > {
        match after_grep(after_levels(entries, self.level), self.grep) {
            Err(m) => Err(m),
            Ok(matching) => match after_since(matching, self.since, now_ms) {
                Err(m) => Err(m),
                Ok(recent) => after_until(recent, self.until, now_ms),
            },
        }
    }

    /// The form of the output: a summary where one is asked for, else
    /// deduplicated groups, else JSON, else compact JSON, else plain lines.
    pub fn output(&self) -> (o: LogsOutput)
        ensures
            o == if self.summary {
                LogsOutput::Summary
            } else if self.dedupe {
                LogsOutput::Dedupe
            } else if self.json {
                LogsOutput::Json
            } else if self.ai {
                LogsOutput::Ai
            } else {
                LogsOutput::Plain
            },
    {
        if self.summary {
            LogsOutput::Summary
        } else if self.dedupe {
            LogsOutput::Dedupe
        } else if self.json {
            LogsOutput::Json
        } else if self.ai {
            LogsOutput::Ai
        } else {
            LogsOutput::Plain
        }
    }

    /// Applies the filters of the query to classified entries.
    pub fn select(&self, entries: &[ProcessedEntry], now_ms: u64) -> (r: Result<
        Vec<ProcessedEntry>,
        VelosError,
    >)
        ensures
            match self.selected(views(entries@), now_ms) {
                Ok(kept) => r matches Ok(out) && views(out@) == kept,
                Err(m) => r matches Err(e) && e.is_protocol(m),
            },
    {
        let mut current: Vec<ProcessedEntry> = match &self.level {
            Some(levels) => {
                let allowed = parse_levels(levels.as_str());
                filter_levels(entries, &allowed)
            },
            None => {
                let copy = crate::log_engine::copy_entries(entries);
                assert(views(copy@) =~= views(entries@));
                copy
            },
        };
        match &self.grep {
            Some(pattern) => {
                current = filter_matching(current.as_slice(), pattern.as_str(), "grep")?;
            },
            None => {},
        }
        match &self.since {
            Some(since) => {
                let since_ms: u64 = parse_time_spec(since.as_str(), now_ms)?;
                current = filter_since(current.as_slice(), since_ms);
            },
            None => {},
        }
        match &self.until {
            Some(until) => {
                let until_ms: u64 = parse_time_spec(until.as_str(), now_ms)?;
                current = filter_until(current.as_slice(), until_ms);
            },
            None => {},
        }
        Ok(current)
    }
}

} // verus!
