//! The countable part of anomaly detection: severities, and the number of
//! lines and of failures in a time bucket.

use vstd::prelude::*;

use crate::log_engine::{LogLevel, ProcessedEntry, ProcessedEntryView};
use crate::protocol::views;

verus! {

/// How far a metric is from normal.
#[derive(Debug, Clone, Copy, PartialEq, Eq, Structural)]
pub enum AnomalySeverity {
    Warning,
    Critical,
}

impl AnomalySeverity {
    /// The lower-case name of the severity.
    pub open spec fn name(self) -> Seq<char> {
        match self {
            AnomalySeverity::Warning => "warning"@,
            AnomalySeverity::Critical => "critical"@,
        }
    }

    /// The lower-case name of the severity.
    pub fn as_str(&self) -> (s: &'static str)
        ensures
            s@ == self.name(),
    {
        match self {
            AnomalySeverity::Warning => "warning",
            AnomalySeverity::Critical => "critical",
        }
    }
}

/// Whether an entry falls into the bucket from `start` (included) to `end`
/// (excluded).
pub open spec fn in_bucket(e: ProcessedEntryView, start: u64, end: u64) -> bool {
    start <= e.timestamp_ms < end
}

/// The number of entries in the bucket.
pub open spec fn bucket_lines(entries: Seq<ProcessedEntryView>, start: u64, end: u64) -> nat
    decreases entries.len(),
{
    if entries.len() == 0 {
        0
    } else {
        bucket_lines(entries.drop_last(), start, end) + if in_bucket(entries.last(), start, end) {
            1nat
        } else {
            0nat
        }
    }
}

/// The number of entries in the bucket that report a failure.
pub open spec fn bucket_failures(entries: Seq<ProcessedEntryView>, start: u64, end: u64) -> nat
    decreases entries.len(),
{
    if entries.len() == 0 {
        0
    } else {
        bucket_failures(entries.drop_last(), start, end) + if in_bucket(entries.last(), start, end)
            && entries.last().level.is_failure() {
            1nat
        } else {
            0nat
        }
    }
}

/// There are no more failures in a bucket than lines, and no more lines
/// than entries.
pub proof fn lemma_bucket_counts(entries: Seq<ProcessedEntryView>, start: u64, end: u64)
    ensures
        bucket_failures(entries, start, end) <= bucket_lines(entries, start, end) <= entries.len(),
    decreases entries.len(),
{
    if entries.len() > 0 {
        lemma_bucket_counts(entries.drop_last(), start, end);
    }
}

/// Counts the failures and the lines of a time bucket: the error rate and
/// the log volume of that bucket.
pub fn compute_minute_metrics(
    entries: &[ProcessedEntry],
    bucket_start_ms: u64,
    bucket_end_ms: u64,
) -> (r: (u64, u64))
    ensures
        r.0 == bucket_failures(views(entries@), bucket_start_ms, bucket_end_ms),
        r.1 == bucket_lines(views(entries@), bucket_start_ms, bucket_end_ms),
{
    let mut errors: u64 = 0;
    let mut total: u64 = 0;
    let mut i: usize = 0;
    assert(views(entries@).take(0) =~= Seq::<ProcessedEntryView>::empty());
    while i < entries.len()
        invariant
            i <= entries.len(),
            errors <= total <= i,
            errors == bucket_failures(
                views(entries@).take(i as int),
                bucket_start_ms,
                bucket_end_ms,
            ),
            total == bucket_lines(views(entries@).take(i as int), bucket_start_ms, bucket_end_ms),
        decreases entries.len() - i,
    {
        let e = &entries[i];
        assert(views(entries@).take(i + 1).drop_last() =~= views(entries@).take(i as int));
        assert(views(entries@).take(i + 1).last() == e@);
        if e.timestamp_ms >= bucket_start_ms && e.timestamp_ms < bucket_end_ms {
            total += 1;
            match e.level {
                LogLevel::Error => {
                    errors += 1;
                },
                LogLevel::Fatal => {
                    errors += 1;
                },
                _ => {},
            }
        }
        i += 1;
    }
    assert(views(entries@).take(entries@.len() as int) =~= views(entries@));
    (errors, total)
}

} // verus!
