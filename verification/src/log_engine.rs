//! Log analysis: levels, enriched entries, and the pipeline of processing
//! stages that the analysis modules plug into.

use vstd::prelude::*;

use crate::protocol::{views, LogEntry};

pub mod anomaly;
pub mod classifier;
pub mod dedup;
pub mod format;
pub mod pattern;
pub mod summary;

verus! {

/// The severity of a log line, from `Debug` (lowest) to `Fatal`.
#[derive(Debug, Clone, Copy, PartialEq, Eq, Hash, Structural)]
pub enum LogLevel {
    Debug,
    Info,
    Warn,
    Error,
    Fatal,
}

impl LogLevel {
    /// The number of the level: 0 for `Debug` up to 4 for `Fatal`.
    pub open spec fn rank_spec(self) -> u8 {
        match self {
            LogLevel::Debug => 0,
            LogLevel::Info => 1,
            LogLevel::Warn => 2,
            LogLevel::Error => 3,
            LogLevel::Fatal => 4,
        }
    }

    /// The level with the given number; `Info` for numbers that name none.
    pub open spec fn of_rank(v: u8) -> LogLevel {
        if v == 0 {
            LogLevel::Debug
        } else if v == 2 {
            LogLevel::Warn
        } else if v == 3 {
            LogLevel::Error
        } else if v == 4 {
            LogLevel::Fatal
        } else {
            LogLevel::Info
        }
    }

    /// The lower-case name of the level.
    pub open spec fn name(self) -> Seq<char> {
        match self {
            LogLevel::Debug => "debug"@,
            LogLevel::Info => "info"@,
            LogLevel::Warn => "warn"@,
            LogLevel::Error => "error"@,
            LogLevel::Fatal => "fatal"@,
        }
    }

    /// The upper-case name of the level.
    pub open spec fn upper_name(self) -> Seq<char> {
        match self {
            LogLevel::Debug => "DEBUG"@,
            LogLevel::Info => "INFO"@,
            LogLevel::Warn => "WARN"@,
            LogLevel::Error => "ERROR"@,
            LogLevel::Fatal => "FATAL"@,
        }
    }

    /// Whether the level reports a failure: `Error` or `Fatal`.
    pub open spec fn is_failure(self) -> bool {
        self == LogLevel::Error || self == LogLevel::Fatal
    }

    /// The more severe of two levels; the first when they are equal.
    pub open spec fn max(self, other: LogLevel) -> LogLevel {
        if other.rank_spec() > self.rank_spec() {
            other
        } else {
            self
        }
    }

    /// The level with the given number; `Info` for numbers that name none.
    pub fn from_u8(v: u8) -> (l: Self)
        ensures
            l == Self::of_rank(v),
    {
        match v {
            0 => LogLevel::Debug,
            2 => LogLevel::Warn,
            3 => LogLevel::Error,
            4 => LogLevel::Fatal,
            _ => LogLevel::Info,
        }
    }

    /// The number of the level.
    #[verifier::when_used_as_spec(rank_spec)]
    pub fn rank(self) -> (r: u8)
        ensures
            r == self.rank_spec(),
    {
        match self {
            LogLevel::Debug => 0,
            LogLevel::Info => 1,
            LogLevel::Warn => 2,
            LogLevel::Error => 3,
            LogLevel::Fatal => 4,
        }
    }

    /// The lower-case name of the level.
    pub fn as_str(&self) -> (s: &'static str)
        ensures
            s@ == self.name(),
    {
        match self {
            LogLevel::Debug => "debug",
            LogLevel::Info => "info",
            LogLevel::Warn => "warn",
            LogLevel::Error => "error",
            LogLevel::Fatal => "fatal",
        }
    }

    /// The upper-case name of the level.
    pub fn as_upper_str(&self) -> (s: &'static str)
        ensures
            s@ == self.upper_name(),
    {
        match self {
            LogLevel::Debug => "DEBUG",
            LogLevel::Info => "INFO",
            LogLevel::Warn => "WARN",
            LogLevel::Error => "ERROR",
            LogLevel::Fatal => "FATAL",
        }
    }

    /// The more severe of two levels.
    pub fn higher(self, other: LogLevel) -> (l: LogLevel)
        ensures
            l == self.max(other),
    {
        if other.rank() > self.rank() {
            other
        } else {
            self
        }
    }
}

/// Numbering levels and reading the number back gives the level.
pub proof fn lemma_level_rank_roundtrip(l: LogLevel)
    ensures
        LogLevel::of_rank(l.rank_spec()) == l,
{
}

/// A log entry with its classified level.
#[derive(Debug, Clone)]
pub struct ProcessedEntry {
    pub timestamp_ms: u64,
    pub level: LogLevel,
    pub stream: u8,
    pub message: String,
}

/// The mathematical content of a [`ProcessedEntry`].
pub struct ProcessedEntryView {
    pub timestamp_ms: u64,
    pub level: LogLevel,
    pub stream: u8,
    pub message: Seq<char>,
}

impl View for ProcessedEntry {
    type V = ProcessedEntryView;

    open spec fn view(&self) -> ProcessedEntryView {
        ProcessedEntryView {
            timestamp_ms: self.timestamp_ms,
            level: self.level,
            stream: self.stream,
            message: self.message@,
        }
    }
}

impl ProcessedEntry {
    /// The entry `entry` with the level `level` in place of its raw one.
    pub fn from_raw(entry: &LogEntry, level: LogLevel) -> (p: Self)
        ensures
            p@ == (ProcessedEntryView {
                timestamp_ms: entry.timestamp_ms,
                level,
                stream: entry.stream,
                message: entry.message@,
            }),
    {
        Self {
            timestamp_ms: entry.timestamp_ms,
            level,
            stream: entry.stream,
            message: entry.message.clone(),
        }
    }

    /// A copy of this entry.
    pub fn duplicate(&self) -> (p: Self)
        ensures
            p@ == self@,
    {
        Self {
            timestamp_ms: self.timestamp_ms,
            level: self.level,
            stream: self.stream,
            message: self.message.clone(),
        }
    }
}

/// A stage of the pipeline: turns a batch of entries into another. What a
/// stage makes of its input is up to the stage. A stage may say what that
/// is: it then answers `described` with true and gives the result in
/// `output`. A stage that says nothing promises nothing.
pub trait LogProcessor {
    /// Whether the stage, in the state it is in, says what it makes of a
    /// batch.
    open spec fn described(&self) -> bool {
        false
    }

    /// What the stage, in the state it is in, makes of a batch, where it
    /// says so.
    open spec fn output(&self, entries: Seq<ProcessedEntryView>) -> Seq<ProcessedEntryView> {
        entries
    }

    /// Processes a batch. The stage may change its state on the way.
    fn process(&mut self, entries: &[ProcessedEntry]) -> (out: Vec<ProcessedEntry>)
        ensures
            old(self).described() ==> views(out@) == old(self).output(views(entries@)),
    ;
}

/// A boxed stage is the stage in the box.
impl<P: LogProcessor + ?Sized> LogProcessor for Box<P> {
    open spec fn described(&self) -> bool {
        (**self).described()
    }

    open spec fn output(&self, entries: Seq<ProcessedEntryView>) -> Seq<ProcessedEntryView> {
        (**self).output(entries)
    }

    fn process(&mut self, entries: &[ProcessedEntry]) -> (out: Vec<ProcessedEntry>) {
        (**self).process(entries)
    }
}

/// Copies a batch of entries.
pub fn copy_entries(entries: &[ProcessedEntry]) -> (out: Vec<ProcessedEntry>)
    ensures
        out@.len() == entries@.len(),
        forall|i: int| 0 <= i < out@.len() ==> out@[i]@ == entries@[i]@,
{
    let mut out: Vec<ProcessedEntry> = Vec::new();
    let mut i: usize = 0;
    while i < entries.len()
        invariant
            i <= entries.len(),
            out@.len() == i,
            forall|j: int| 0 <= j < i ==> out@[j]@ == entries@[j]@,
        decreases entries.len() - i,
    {
        out.push(entries[i].duplicate());
        i += 1;
    }
    out
}

/// A chain of stages, each fed with the output of the one before it.
pub struct Pipeline<P: LogProcessor> {
    stages: Vec<P>,
}

impl<P: LogProcessor> Pipeline<P> {
    /// The stages, in the order in which they were added.
    pub closed spec fn stages(&self) -> Seq<P> {
        self.stages@
    }

    /// The number of stages.
    pub open spec fn len(&self) -> nat {
        self.stages().len()
    }

    /// Whether every stage says what it makes of a batch.
    pub open spec fn all_described(&self) -> bool {
        forall|k: int| 0 <= k < self.len() ==> (#[trigger] self.stages()[k]).described()
    }

    /// What the first `k` stages make of a batch, each working on what the
    /// stage before it put out.
    pub open spec fn piped(
        &self,
        k: int,
        entries: Seq<ProcessedEntryView>,
    ) -> Seq<ProcessedEntryView>
        decreases k,
    {
        if k <= 0 || k > self.len() {
            entries
        } else {
            self.stages()[k - 1].output(self.piped(k - 1, entries))
        }
    }

    /// A pipeline without stages.
    pub fn new() -> (p: Self)
        ensures
            p.stages() == Seq::<P>::empty(),
    {
        Self { stages: Vec::new() }
    }

    /// Adds a stage after the existing ones.
    pub fn add_stage(&mut self, stage: P)
        ensures
            final(self).stages() == old(self).stages().push(stage),
    {
        self.stages.push(stage);
    }

    /// Runs the entries through the stages in the order in which they were
    /// added: the first stage gets `entries`, every other stage the output
    /// of the stage before it, and the output of the last stage is the
    /// result. A pipeline without stages hands back a copy of `entries`.
    /// The result is known as far as every stage says what it does.
    pub fn run(&mut self, entries: &[ProcessedEntry]) -> (out: Vec<ProcessedEntry>)
        ensures
            final(self).len() == old(self).len(),
            old(self).all_described() ==> views(out@) == old(self).piped(
                old(self).len() as int,
                views(entries@),
            ),
    {
        let mut current = copy_entries(entries);
        assert(views(current@) =~= views(entries@));
        let mut i: usize = 0;
        while i < self.stages.len()
            invariant
                i <= self.stages.len(),
                self.stages@.len() == old(self).stages@.len(),
                forall|k: int|
                    i <= k < self.stages@.len() ==> self.stages@[k] == old(self).stages@[k],
                old(self).all_described() ==> views(current@) == old(self).piped(
                    i as int,
                    views(entries@),
                ),
            decreases self.stages.len() - i,
        {
            current = self.stages[i].process(current.as_slice());
            i += 1;
        }
        current
    }
}

impl<P: LogProcessor> Default for Pipeline<P> {
    fn default() -> (p: Self)
        ensures
            p.stages() == Seq::<P>::empty(),
    {
        Self::new()
    }
}

} // verus!
