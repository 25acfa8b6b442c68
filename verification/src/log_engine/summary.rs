//! The health summary of a process's log: line counts by level, the period
//! covered, the most frequent patterns, the latest failure and a score.

use vstd::prelude::*;
use vstd::string::StringExecFns;

use crate::log_engine::pattern::{DetectedPattern, DetectedPatternView};
use crate::log_engine::{LogLevel, ProcessedEntry, ProcessedEntryView};
use crate::protocol::views;
use crate::text::{decimal, push_decimal, push_decimal_wide, truncate, truncated};

verus! {

/// The number of lines at each level.
#[derive(Debug, Clone, Copy, PartialEq, Eq, Structural)]
pub struct LevelCounts {
    pub debug: u64,
    pub info: u64,
    pub warn: u64,
    pub error: u64,
    pub fatal: u64,
}

impl LevelCounts {
    /// The number of lines at `level`.
    pub open spec fn of(self, level: LogLevel) -> u64 {
        match level {
            LogLevel::Debug => self.debug,
            LogLevel::Info => self.info,
            LogLevel::Warn => self.warn,
            LogLevel::Error => self.error,
            LogLevel::Fatal => self.fatal,
        }
    }

    /// The number of lines at `level`.
    pub fn get(&self, level: LogLevel) -> (n: u64)
        ensures
            n == self.of(level),
    {
        match level {
            LogLevel::Debug => self.debug,
            LogLevel::Info => self.info,
            LogLevel::Warn => self.warn,
            LogLevel::Error => self.error,
            LogLevel::Fatal => self.fatal,
        }
    }
}

/// A pattern as the summary shows it.
#[derive(Debug, Clone)]
pub struct PatternSummary {
    pub template: String,
    pub count: u32,
    pub trend: String,
}

/// The mathematical content of a [`PatternSummary`].
pub struct PatternSummaryView {
    pub template: Seq<char>,
    pub count: u32,
    pub trend: Seq<char>,
}

impl View for PatternSummary {
    type V = PatternSummaryView;

    open spec fn view(&self) -> PatternSummaryView {
        PatternSummaryView { template: self.template@, count: self.count, trend: self.trend@ }
    }
}

/// The summary of a detected pattern: its template, its frequency and the
/// name of its trend.
pub open spec fn summarized(p: DetectedPatternView) -> PatternSummaryView {
    PatternSummaryView { template: p.template, count: p.frequency as u32, trend: p.trend.name() }
}

impl PatternSummary {
    /// Summarises a detected pattern.
    pub fn from_pattern(p: &DetectedPattern) -> (s: Self)
        ensures
            s@ == summarized(p@),
    {
        Self {
            template: p.template.clone(),
            count: p.frequency,
            trend: String::from_str(p.trend.as_str()),
        }
    }
}

impl From<&DetectedPattern> for PatternSummary {
    fn from(p: &DetectedPattern) -> (s: Self)
        ensures
            s@ == summarized(p@),
    {
        PatternSummary::from_pattern(p)
    }
}

impl vstd::std_specs::convert::FromSpecImpl<&DetectedPattern> for PatternSummary {
    open spec fn obeys_from_spec() -> bool {
        false
    }

    open spec fn from_spec(p: &DetectedPattern) -> Self {
        arbitrary()
    }
}

/// The summary of a process's log.
#[derive(Debug, Clone)]
pub struct LogSummary {
    pub process_name: String,
    /// The earliest timestamp among the entries.
    pub period_start_ms: u64,
    /// The latest timestamp among the entries.
    pub period_end_ms: u64,
    pub total_lines: u64,
    pub by_level: LevelCounts,
    /// The most frequent patterns, five at most.
    pub top_patterns: Vec<PatternSummary>,
    /// The number of anomalies found in the log's metrics.
    pub anomaly_count: u64,
    /// The message of the latest failure.
    pub last_error: Option<String>,
    pub last_error_ms: Option<u64>,
    /// From 0 (worst) to 100 (best).
    pub health_score: u8,
}

/// The mathematical content of a [`LogSummary`].
pub struct LogSummaryView {
    pub process_name: Seq<char>,
    pub period_start_ms: u64,
    pub period_end_ms: u64,
    pub total_lines: u64,
    pub by_level: LevelCounts,
    pub top_patterns: Seq<PatternSummaryView>,
    pub anomaly_count: u64,
    pub last_error: Option<Seq<char>>,
    pub last_error_ms: Option<u64>,
    pub health_score: u8,
}

impl View for LogSummary {
    type V = LogSummaryView;

    open spec fn view(&self) -> LogSummaryView {
        LogSummaryView {
            process_name: self.process_name@,
            period_start_ms: self.period_start_ms,
            period_end_ms: self.period_end_ms,
            total_lines: self.total_lines,
            by_level: self.by_level,
            top_patterns: views(self.top_patterns@),
            anomaly_count: self.anomaly_count,
            last_error: match self.last_error {
                Some(m) => Some(m@),
                None => None,
            },
            last_error_ms: self.last_error_ms,
            health_score: self.health_score,
        }
    }
}

// ------------------------------------------------------------------
// What a summary says of a batch of entries
// ------------------------------------------------------------------
/// The number of entries at `level`.
pub open spec fn level_count(entries: Seq<ProcessedEntryView>, level: LogLevel) -> nat
    decreases entries.len(),
{
    if entries.len() == 0 {
        0
    } else {
        level_count(entries.drop_last(), level) + if entries.last().level == level {
            1nat
        } else {
            0nat
        }
    }
}

/// The least timestamp among the entries; `u64::MAX` when there are none.
pub open spec fn least_timestamp(entries: Seq<ProcessedEntryView>) -> u64
    decreases entries.len(),
{
    if entries.len() == 0 {
        u64::MAX
    } else {
        let rest = least_timestamp(entries.drop_last());
        if entries.last().timestamp_ms < rest {
            entries.last().timestamp_ms
        } else {
            rest
        }
    }
}

/// The start of the period: the least timestamp, or zero when there are no
/// entries or none is earlier than `u64::MAX`.
pub open spec fn period_start(entries: Seq<ProcessedEntryView>) -> u64 {
    if least_timestamp(entries) == u64::MAX {
        0
    } else {
        least_timestamp(entries)
    }
}

/// The end of the period: the greatest timestamp, or zero when there are
/// no entries.
pub open spec fn period_end(entries: Seq<ProcessedEntryView>) -> u64
    decreases entries.len(),
{
    if entries.len() == 0 {
        0
    } else {
        let rest = period_end(entries.drop_last());
        if entries.last().timestamp_ms > rest {
            entries.last().timestamp_ms
        } else {
            rest
        }
    }
}

/// The latest failure: among the entries at `Error` or `Fatal`, the first
/// of those with the greatest timestamp.
pub open spec fn latest_failure(entries: Seq<ProcessedEntryView>) -> Option<ProcessedEntryView>
    decreases entries.len(),
{
    if entries.len() == 0 {
        None
    } else {
        let rest = latest_failure(entries.drop_last());
        let e = entries.last();
        if e.level.is_failure() && (rest is None || e.timestamp_ms > rest->0.timestamp_ms) {
            Some(e)
        } else {
            rest
        }
    }
}

/// The first five of the patterns, summarised.
pub open spec fn top_five(patterns: Seq<DetectedPatternView>) -> Seq<PatternSummaryView> {
    let kept = if patterns.len() > 5 {
        patterns.take(5)
    } else {
        patterns
    };
    kept.map_values(|p: DetectedPatternView| summarized(p))
}

/// The health score: 100 less five points for each failure, ten for each
/// anomaly and three for each restart, but not below zero.
pub open spec fn health(failures: nat, anomalies: nat, restarts: nat) -> u8 {
    let penalty = failures * 5 + anomalies * 10 + restarts * 3;
    if penalty >= 100 {
        0
    } else {
        (100 - penalty) as u8
    }
}

/// The counts of all five levels.
pub open spec fn level_counts(entries: Seq<ProcessedEntryView>) -> LevelCounts {
    LevelCounts {
        debug: level_count(entries, LogLevel::Debug) as u64,
        info: level_count(entries, LogLevel::Info) as u64,
        warn: level_count(entries, LogLevel::Warn) as u64,
        error: level_count(entries, LogLevel::Error) as u64,
        fatal: level_count(entries, LogLevel::Fatal) as u64,
    }
}

/// The summary of a batch of entries.
pub open spec fn summary_of(
    process_name: Seq<char>,
    entries: Seq<ProcessedEntryView>,
    patterns: Seq<DetectedPatternView>,
    anomaly_count: u64,
    restart_count: u32,
) -> LogSummaryView {
    LogSummaryView {
        process_name,
        period_start_ms: period_start(entries),
        period_end_ms: period_end(entries),
        total_lines: entries.len() as u64,
        by_level: level_counts(entries),
        top_patterns: top_five(patterns),
        anomaly_count,
        last_error: match latest_failure(entries) {
            Some(e) => Some(e.message),
            None => None,
        },
        last_error_ms: match latest_failure(entries) {
            Some(e) => Some(e.timestamp_ms),
            None => None,
        },
        health_score: health(
            level_count(entries, LogLevel::Error) + level_count(entries, LogLevel::Fatal),
            anomaly_count as nat,
            restart_count as nat,
        ),
    }
}

/// The levels part the entries: the five counts add up to their number.
pub proof fn lemma_level_counts_total(entries: Seq<ProcessedEntryView>)
    ensures
        level_count(entries, LogLevel::Debug) + level_count(entries, LogLevel::Info) + level_count(
            entries,
            LogLevel::Warn,
        ) + level_count(entries, LogLevel::Error) + level_count(entries, LogLevel::Fatal)
            == entries.len(),
    decreases entries.len(),
{
    if entries.len() > 0 {
        lemma_level_counts_total(entries.drop_last());
    }
}

/// The health score never rises when failures, anomalies or restarts are
/// added, and lies between 0 and 100.
pub proof fn lemma_health_monotone(f1: nat, a1: nat, r1: nat, f2: nat, a2: nat, r2: nat)
    requires
        f1 <= f2,
        a1 <= a2,
        r1 <= r2,
    ensures
        health(f2, a2, r2) <= health(f1, a1, r1) <= 100,
{
}

/// Computes the health score.
pub fn compute_health_score(error_count: u64, anomaly_count: u64, restart_count: u64) -> (score: u8)
    ensures
        score == health(error_count as nat, anomaly_count as nat, restart_count as nat),
{
    if error_count >= 20 || anomaly_count >= 10 || restart_count >= 34 {
        return 0;
    }
    let penalty: u64 = error_count * 5 + anomaly_count * 10 + restart_count * 3;
    if penalty >= 100 {
        0
    } else {
        (100 - penalty) as u8
    }
}

/// Summarises a batch of entries of the process `process_name`, given the
/// patterns detected in them, the number of anomalies found and the number
/// of restarts of the process.
pub fn generate_summary(
    process_name: &str,
    entries: &[ProcessedEntry],
    patterns: &[DetectedPattern],
    anomaly_count: u64,
    restart_count: u32,
) -> (s: LogSummary)
    ensures
        s@ == summary_of(
            process_name@,
            views(entries@),
            views(patterns@),
            anomaly_count,
            restart_count,
        ),
{
    let mut counts = LevelCounts { debug: 0, info: 0, warn: 0, error: 0, fatal: 0 };
    let mut last_error: Option<String> = None;
    let mut last_error_ms: Option<u64> = None;
    let mut start: u64 = u64::MAX;
    let mut end: u64 = 0;
    let mut i: usize = 0;
    assert(views(entries@).take(0) =~= Seq::<ProcessedEntryView>::empty());
    while i < entries.len()
        invariant
            i <= entries.len(),
            counts == level_counts(views(entries@).take(i as int)),
            start == least_timestamp(views(entries@).take(i as int)),
            end == period_end(views(entries@).take(i as int)),
            match latest_failure(views(entries@).take(i as int)) {
                Some(e) => last_error matches Some(m) && m@ == e.message && last_error_ms == Some(
                    e.timestamp_ms,
                ),
                None => last_error is None && last_error_ms is None,
            },
        decreases entries.len() - i,
    {
        let e = &entries[i];
        proof {
            let done = views(entries@).take(i as int);
            assert(views(entries@).take(i + 1).drop_last() =~= done);
            assert(views(entries@).take(i + 1).last() == e@);
            lemma_level_counts_total(done);
        }
        match e.level {
            LogLevel::Debug => {
                counts.debug = counts.debug + 1;
            },
            LogLevel::Info => {
                counts.info = counts.info + 1;
            },
            LogLevel::Warn => {
                counts.warn = counts.warn + 1;
            },
            LogLevel::Error => {
                counts.error = counts.error + 1;
            },
            LogLevel::Fatal => {
                counts.fatal = counts.fatal + 1;
            },
        }
        if e.timestamp_ms < start {
            start = e.timestamp_ms;
        }
        if e.timestamp_ms > end {
            end = e.timestamp_ms;
        }
        let failure: bool = match e.level {
            LogLevel::Error => true,
            LogLevel::Fatal => true,
            _ => false,
        };
        if failure {
            let later: bool = match last_error_ms {
                Some(ts) => e.timestamp_ms > ts,
                None => true,
            };
            if later {
                last_error = Some(e.message.clone());
                last_error_ms = Some(e.timestamp_ms);
            }
        }
        i += 1;
    }
    assert(views(entries@).take(entries@.len() as int) =~= views(entries@));
    if start == u64::MAX {
        start = 0;
    }
    let mut top: Vec<PatternSummary> = Vec::new();
    let limit: usize = if patterns.len() > 5 {
        5
    } else {
        patterns.len()
    };
    let mut k: usize = 0;
    while k < limit
        invariant
            k <= limit <= patterns.len(),
            top@.len() == k,
            forall|j: int| 0 <= j < k ==> (#[trigger] top@[j])@ == summarized(patterns@[j]@),
        decreases limit - k,
    {
        top.push(PatternSummary::from_pattern(&patterns[k]));
        k += 1;
    }
    assert(views(top@) =~= top_five(views(patterns@)));
    proof {
        lemma_level_counts_total(views(entries@));
    }
    let failures: u64 = counts.error + counts.fatal;
    let health_score = compute_health_score(failures, anomaly_count, restart_count as u64);
    LogSummary {
        process_name: String::from_str(process_name),
        period_start_ms: start,
        period_end_ms: end,
        total_lines: entries.len() as u64,
        by_level: counts,
        top_patterns: top,
        anomaly_count,
        last_error,
        last_error_ms,
        health_score,
    }
}

// ------------------------------------------------------------------
// Rendering
// ------------------------------------------------------------------
/// A duration in its largest whole unit: seconds below a minute, minutes
/// below an hour, hours below a day, else days.
pub open spec fn duration_text(ms: u64) -> Seq<char> {
    let secs = ms / 1000;
    if secs < 60 {
        decimal(secs as nat) + "s"@
    } else if secs < 3600 {
        decimal((secs / 60) as nat) + "m"@
    } else if secs < 86400 {
        decimal((secs / 3600) as nat) + "h"@
    } else {
        decimal((secs / 86400) as nat) + "d"@
    }
}

/// The time from `start_ms` to `end_ms`; nothing when the end is earlier.
pub open spec fn span(start_ms: u64, end_ms: u64) -> u64 {
    if end_ms >= start_ms {
        (end_ms - start_ms) as u64
    } else {
        0
    }
}

/// A period as `last 5m`.
pub open spec fn period_text(start_ms: u64, end_ms: u64) -> Seq<char> {
    "last "@ + duration_text(span(start_ms, end_ms))
}

/// The line of the pattern at place `rank`, counted from one.
pub open spec fn pattern_line(rank: nat, p: PatternSummaryView) -> Seq<char> {
    "  "@ + decimal(rank) + ". \""@ + truncated(p.template, 60) + "\" (x"@ + decimal(
        p.count as nat,
    ) + ", trend: "@ + p.trend + ")\n"@
}

/// The lines of the patterns, one each, numbered from one.
pub open spec fn pattern_lines(patterns: Seq<PatternSummaryView>) -> Seq<char>
    decreases patterns.len(),
{
    if patterns.len() == 0 {
        Seq::empty()
    } else {
        pattern_lines(patterns.drop_last()) + pattern_line(patterns.len(), patterns.last())
    }
}

/// The heading and the lines of the patterns; nothing where there are none.
pub open spec fn patterns_text(patterns: Seq<PatternSummaryView>) -> Seq<char> {
    if patterns.len() == 0 {
        Seq::empty()
    } else {
        "Top patterns:\n"@ + pattern_lines(patterns)
    }
}

/// The line about the latest failure; nothing where there is none. The
/// failure's age is counted back from the end of the period.
pub open spec fn last_error_text(s: LogSummaryView) -> Seq<char> {
    match s.last_error {
        None => Seq::empty(),
        Some(err) => "Last error: \""@ + truncated(err, 60) + "\" ("@ + (match s.last_error_ms {
            Some(ts) => duration_text(span(ts, s.period_end_ms)),
            None => "unknown"@,
        }) + " ago)\n"@,
    }
}

/// The summary as shown on a terminal: a line with name, period and
/// health, a line with the counts, then the patterns and the latest
/// failure where there are any.
pub open spec fn summary_text(s: LogSummaryView) -> Seq<char> {
    "Process: "@ + s.process_name + " | Period: "@ + period_text(
        s.period_start_ms,
        s.period_end_ms,
    ) + " | Health: "@ + decimal(s.health_score as nat) + "/100\n"@ + "Lines: "@ + decimal(
        s.total_lines as nat,
    ) + " | Errors: "@ + decimal((s.by_level.error + s.by_level.fatal) as nat) + " | Warnings: "@
        + decimal(s.by_level.warn as nat) + "\n"@ + patterns_text(s.top_patterns)
        + last_error_text(s)
}

/// Appends a duration in its largest whole unit.
fn push_duration(out: &mut String, ms: u64)
    ensures
        final(out)@ == old(out)@ + duration_text(ms),
{
    let secs: u64 = ms / 1000;
    if secs < 60 {
        push_decimal(out, secs);
        out.append("s");
    } else if secs < 3600 {
        push_decimal(out, secs / 60);
        out.append("m");
    } else if secs < 86400 {
        push_decimal(out, secs / 3600);
        out.append("h");
    } else {
        push_decimal(out, secs / 86400);
        out.append("d");
    }
    assert(out@ =~= old(out)@ + duration_text(ms));
}

/// Formats a duration in its largest whole unit.
pub fn format_duration(ms: u64) -> (s: String)
    ensures
        s@ == duration_text(ms),
{
    let mut out = String::new();
    push_duration(&mut out, ms);
    assert(out@ =~= duration_text(ms));
    out
}

/// Formats the period from `start_ms` to `end_ms`.
pub fn format_period(start_ms: u64, end_ms: u64) -> (s: String)
    ensures
        s@ == period_text(start_ms, end_ms),
{
    let diff: u64 = if end_ms >= start_ms {
        end_ms - start_ms
    } else {
        0
    };
    let mut out = String::from_str("last ");
    push_duration(&mut out, diff);
    out
}

/// Formats a summary for display on a terminal.
pub fn format_summary(s: &LogSummary) -> (out: String)
    ensures
        out@ == summary_text(s@),
{
    let mut out = String::from_str("Process: ");
    out.append(s.process_name.as_str());
    out.append(" | Period: ");
    let period = format_period(s.period_start_ms, s.period_end_ms);
    out.append(period.as_str());
    out.append(" | Health: ");
    push_decimal(&mut out, s.health_score as u64);
    out.append("/100\n");
    out.append("Lines: ");
    push_decimal(&mut out, s.total_lines);
    out.append(" | Errors: ");
    push_decimal_wide(&mut out, s.by_level.error as u128 + s.by_level.fatal as u128);
    out.append(" | Warnings: ");
    push_decimal(&mut out, s.by_level.warn);
    out.append("\n");
    let ghost head = out@;
    assert(head =~= "Process: "@ + s@.process_name + " | Period: "@ + period_text(
        s.period_start_ms,
        s.period_end_ms,
    ) + " | Health: "@ + decimal(s.health_score as nat) + "/100\n"@ + "Lines: "@ + decimal(
        s.total_lines as nat,
    ) + " | Errors: "@ + decimal((s.by_level.error + s.by_level.fatal) as nat) + " | Warnings: "@
        + decimal(s.by_level.warn as nat) + "\n"@);
    if s.top_patterns.len() > 0 {
        out.append("Top patterns:\n");
        let ghost listed = views(s.top_patterns@);
        let mut i: usize = 0;
        assert(listed.take(0) =~= Seq::<PatternSummaryView>::empty());
        while i < s.top_patterns.len()
            invariant
                i <= s.top_patterns.len(),
                listed == views(s.top_patterns@),
                out@ == head + "Top patterns:\n"@ + pattern_lines(listed.take(i as int)),
            decreases s.top_patterns.len() - i,
        {
            let p = &s.top_patterns[i];
            let ghost before = out@;
            assert(listed.take(i + 1).drop_last() =~= listed.take(i as int));
            assert(listed.take(i + 1).last() == p@);
            out.append("  ");
            push_decimal(&mut out, i as u64 + 1);
            out.append(". \"");
            let cut = truncate(p.template.as_str(), 60);
            out.append(cut.as_str());
            out.append("\" (x");
            push_decimal(&mut out, p.count as u64);
            out.append(", trend: ");
            out.append(p.trend.as_str());
            out.append(")\n");
            assert(out@ =~= before + pattern_line((i + 1) as nat, p@));
            i += 1;
        }
        assert(listed.take(listed.len() as int) =~= listed);
        assert(out@ =~= head + patterns_text(s@.top_patterns));
    } else {
        assert(out@ =~= head + patterns_text(s@.top_patterns));
    }
    let ghost mid = out@;
    match &s.last_error {
        Some(err) => {
            out.append("Last error: \"");
            let cut = truncate(err.as_str(), 60);
            out.append(cut.as_str());
            out.append("\" (");
            match s.last_error_ms {
                Some(ts) => {
                    let diff: u64 = if s.period_end_ms >= ts {
                        s.period_end_ms - ts
                    } else {
                        0
                    };
                    push_duration(&mut out, diff);
                },
                None => {
                    out.append("unknown");
                },
            }
            out.append(" ago)\n");
            assert(out@ =~= mid + last_error_text(s@));
        },
        None => {
            assert(out@ =~= mid + last_error_text(s@));
        },
    }
    assert(out@ =~= summary_text(s@));
    out
}

} // verus!
