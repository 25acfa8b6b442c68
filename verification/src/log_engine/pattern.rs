//! Pattern detection: which templates recur within a time window, how
//! often, and whether they are on the rise.

use vstd::prelude::*;

use crate::log_engine::dedup::{normalize, normalized};
use crate::log_engine::{LogLevel, ProcessedEntry, ProcessedEntryView};
use crate::order::{positions, rank_desc, ranked};
use crate::outside::{hash_string, text_hash};
use crate::protocol::views;

verus! {

/// The direction in which the frequency of a pattern moves.
#[derive(Debug, Clone, Copy, PartialEq, Eq, Structural)]
pub enum Trend {
    Rising,
    Stable,
    Declining,
}

impl Trend {
    /// The lower-case name of the trend.
    pub open spec fn name(self) -> Seq<char> {
        match self {
            Trend::Rising => "rising"@,
            Trend::Stable => "stable"@,
            Trend::Declining => "declining"@,
        }
    }

    /// The lower-case name of the trend.
    pub fn as_str(&self) -> (s: &'static str)
        ensures
            s@ == self.name(),
    {
        match self {
            Trend::Rising => "rising",
            Trend::Stable => "stable",
            Trend::Declining => "declining",
        }
    }
}

/// The trend of a pattern seen `first_half` times in the first half of the
/// window and `second_half` times in the second: stable below four
/// occurrences; else rising when more than 65 % of them fall into the
/// second half, declining when fewer than 35 % do, stable in between.
pub open spec fn trend_of(first_half: nat, second_half: nat) -> Trend {
    let total = first_half + second_half;
    if total < 4 {
        Trend::Stable
    } else if 100 * second_half > 65 * total {
        Trend::Rising
    } else if 100 * second_half < 35 * total {
        Trend::Declining
    } else {
        Trend::Stable
    }
}

/// Tells the trend from the occurrences in the two halves of the window.
pub fn detect_trend(first_half: u32, second_half: u32) -> (t: Trend)
    ensures
        t == trend_of(first_half as nat, second_half as nat),
{
    let total: u64 = first_half as u64 + second_half as u64;
    if total < 4 {
        return Trend::Stable;
    }
    let second: u64 = second_half as u64;
    if 100 * second > 65 * total {
        Trend::Rising
    } else if 100 * second < 35 * total {
        Trend::Declining
    } else {
        Trend::Stable
    }
}

/// A recurring log pattern.
#[derive(Debug, Clone)]
pub struct DetectedPattern {
    pub template: String,
    /// The number of entries in the window that follow the template.
    pub frequency: u32,
    /// The most severe level among them.
    pub level: LogLevel,
    pub first_seen_ms: u64,
    pub last_seen_ms: u64,
    pub trend: Trend,
}

/// The mathematical content of a [`DetectedPattern`].
pub struct DetectedPatternView {
    pub template: Seq<char>,
    pub frequency: nat,
    pub level: LogLevel,
    pub first_seen_ms: u64,
    pub last_seen_ms: u64,
    pub trend: Trend,
}

impl View for DetectedPattern {
    type V = DetectedPatternView;

    open spec fn view(&self) -> DetectedPatternView {
        DetectedPatternView {
            template: self.template@,
            frequency: self.frequency as nat,
            level: self.level,
            first_seen_ms: self.first_seen_ms,
            last_seen_ms: self.last_seen_ms,
            trend: self.trend,
        }
    }
}

/// What is known of a template while its occurrences are counted.
pub struct Tally {
    /// The hash of the template.
    pub key: u64,
    pub template: Seq<char>,
    pub count: nat,
    pub level: LogLevel,
    pub first_seen_ms: u64,
    pub last_seen_ms: u64,
    /// Occurrences before the midpoint of the window.
    pub first_half: nat,
    /// Occurrences at or after the midpoint.
    pub second_half: nat,
}

/// The position of the tally with key `key`, if there is one.
pub open spec fn tally_index(tallies: Seq<Tally>, key: u64) -> Option<int>
    decreases tallies.len(),
{
    if tallies.len() == 0 {
        None
    } else if tallies.last().key == key {
        Some(tallies.len() - 1)
    } else {
        tally_index(tallies.drop_last(), key)
    }
}

/// The tally of a template before any of its occurrences is counted.
pub open spec fn opened(e: ProcessedEntryView) -> Tally {
    Tally {
        key: text_hash(normalized(e.message)),
        template: normalized(e.message),
        count: 0,
        level: e.level,
        first_seen_ms: e.timestamp_ms,
        last_seen_ms: e.timestamp_ms,
        first_half: 0,
        second_half: 0,
    }
}

/// The tally `t` with one more occurrence `e` counted.
pub open spec fn counted(t: Tally, e: ProcessedEntryView, midpoint: u64) -> Tally {
    Tally {
        count: t.count + 1,
        last_seen_ms: e.timestamp_ms,
        level: t.level.max(e.level),
        first_half: if e.timestamp_ms < midpoint {
            t.first_half + 1
        } else {
            t.first_half
        },
        second_half: if e.timestamp_ms < midpoint {
            t.second_half
        } else {
            t.second_half + 1
        },
        ..t
    }
}

/// The tallies after one more entry: an entry from before the window is
/// passed over; any other is counted under its template, which gets a new
/// tally at the end if it has none.
pub open spec fn tallied(
    tallies: Seq<Tally>,
    e: ProcessedEntryView,
    window_start: u64,
    midpoint: u64,
) -> Seq<Tally> {
    if e.timestamp_ms < window_start {
        tallies
    } else {
        match tally_index(tallies, text_hash(normalized(e.message))) {
            Some(i) => tallies.update(i, counted(tallies[i], e, midpoint)),
            None => tallies.push(counted(opened(e), e, midpoint)),
        }
    }
}

/// The tallies of a batch of entries, taken in order.
pub open spec fn tallies_of(entries: Seq<ProcessedEntryView>, window_start: u64, midpoint: u64) -> Seq<
    Tally,
>
    decreases entries.len(),
{
    if entries.len() == 0 {
        Seq::empty()
    } else {
        tallied(
            tallies_of(entries.drop_last(), window_start, midpoint),
            entries.last(),
            window_start,
            midpoint,
        )
    }
}

/// The tallies that count at least `min_frequency` occurrences, in order.
pub open spec fn frequent(tallies: Seq<Tally>, min_frequency: u32) -> Seq<Tally>
    decreases tallies.len(),
{
    if tallies.len() == 0 {
        Seq::empty()
    } else if tallies.last().count >= min_frequency {
        frequent(tallies.drop_last(), min_frequency).push(tallies.last())
    } else {
        frequent(tallies.drop_last(), min_frequency)
    }
}

/// The pattern that a tally reports.
pub open spec fn pattern_of(t: Tally) -> DetectedPatternView {
    DetectedPatternView {
        template: t.template,
        frequency: t.count,
        level: t.level,
        first_seen_ms: t.first_seen_ms,
        last_seen_ms: t.last_seen_ms,
        trend: trend_of(t.first_half, t.second_half),
    }
}

/// The counts of a sequence of tallies.
pub open spec fn frequencies(tallies: Seq<Tally>) -> Seq<u64> {
    tallies.map_values(|t: Tally| t.count as u64)
}

/// The start of the window that ends at `now`.
pub open spec fn window_start(now: u64, window_ms: u64) -> u64 {
    if now >= window_ms {
        (now - window_ms) as u64
    } else {
        0
    }
}

/// The patterns of a batch of entries. The window ends at the timestamp of
/// the last entry and is `window_ms` long; entries before it are passed
/// over. Templates with at least `min_frequency` occurrences in the window
/// are reported, the most frequent first, those of equal frequency in the
/// order in which they first occurred.
pub open spec fn detected(entries: Seq<ProcessedEntryView>, min_frequency: u32, window_ms: u64) -> Seq<
    DetectedPatternView,
> {
    if entries.len() == 0 {
        Seq::empty()
    } else {
        let start = window_start(entries.last().timestamp_ms, window_ms);
        let midpoint = (start + window_ms / 2) as u64;
        let kept = frequent(tallies_of(entries, start, midpoint), min_frequency);
        ranked(frequencies(kept)).map_values(|i: int| pattern_of(kept[i]))
    }
}

/// Where `tally_index` finds a key, the tally there has it.
pub proof fn lemma_tally_index(tallies: Seq<Tally>, key: u64)
    ensures
        match tally_index(tallies, key) {
            Some(i) => 0 <= i < tallies.len() && tallies[i].key == key,
            None => true,
        },
    decreases tallies.len(),
{
    if tallies.len() > 0 && tallies.last().key != key {
        lemma_tally_index(tallies.drop_last(), key);
    }
}

/// Every occurrence is counted in exactly one half, and no template is
/// counted more often than there are entries.
pub proof fn lemma_tallies_bounded(
    entries: Seq<ProcessedEntryView>,
    window_start: u64,
    midpoint: u64,
)
    ensures
        forall|i: int|
            0 <= i < tallies_of(entries, window_start, midpoint).len() ==> {
                let t = #[trigger] tallies_of(entries, window_start, midpoint)[i];
                t.count == t.first_half + t.second_half && 1 <= t.count <= entries.len()
            },
    decreases entries.len(),
{
    if entries.len() > 0 {
        lemma_tallies_bounded(entries.drop_last(), window_start, midpoint);
        let before = tallies_of(entries.drop_last(), window_start, midpoint);
        lemma_tally_index(before, text_hash(normalized(entries.last().message)));
    }
}

/// Only tallies with at least `min_frequency` occurrences are kept.
pub proof fn lemma_frequent(tallies: Seq<Tally>, min_frequency: u32)
    ensures
        frequent(tallies, min_frequency).len() <= tallies.len(),
        forall|i: int|
            0 <= i < frequent(tallies, min_frequency).len() ==> (#[trigger] frequent(
                tallies,
                min_frequency,
            )[i]).count >= min_frequency,
    decreases tallies.len(),
{
    if tallies.len() > 0 {
        lemma_frequent(tallies.drop_last(), min_frequency);
    }
}

/// A tally while the detector counts.
struct PatternBucket {
    key: u64,
    template: String,
    count: u32,
    level: LogLevel,
    first_seen_ms: u64,
    last_seen_ms: u64,
    first_half_count: u32,
    second_half_count: u32,
}

impl View for PatternBucket {
    type V = Tally;

    closed spec fn view(&self) -> Tally {
        Tally {
            key: self.key,
            template: self.template@,
            count: self.count as nat,
            level: self.level,
            first_seen_ms: self.first_seen_ms,
            last_seen_ms: self.last_seen_ms,
            first_half: self.first_half_count as nat,
            second_half: self.second_half_count as nat,
        }
    }
}

/// Finds the tally with the given key.
fn find_tally(buckets: &Vec<PatternBucket>, key: u64) -> (r: Option<usize>)
    ensures
        match r {
            Some(i) => tally_index(views(buckets@), key) == Some(i as int) && i < buckets@.len(),
            None => tally_index(views(buckets@), key) is None,
        },
{
    let mut i: usize = buckets.len();
    assert(views(buckets@).take(i as int) =~= views(buckets@));
    while i > 0
        invariant
            i <= buckets.len(),
            tally_index(views(buckets@), key) == tally_index(views(buckets@).take(i as int), key),
        decreases i,
    {
        i -= 1;
        assert(views(buckets@).take(i + 1).drop_last() =~= views(buckets@).take(i as int));
        assert(views(buckets@).take(i + 1).last() == buckets@[i as int]@);
        if buckets[i].key == key {
            return Some(i);
        }
    }
    None
}

/// Finds the templates that recur in a batch of log entries.
pub struct PatternDetector {
    min_frequency: u32,
    time_window_ms: u64,
}

impl PatternDetector {
    /// The least number of occurrences that makes a pattern.
    pub closed spec fn min_frequency(&self) -> u32 {
        self.min_frequency
    }

    /// The length of the window in milliseconds.
    pub closed spec fn window_ms(&self) -> u64 {
        self.time_window_ms
    }

    /// A detector that reports templates with at least `min_frequency`
    /// occurrences in a window of `time_window_secs` seconds.
    pub fn new(min_frequency: u32, time_window_secs: u64) -> (d: Self)
        requires
            time_window_secs * 1000 <= u64::MAX,
        ensures
            d.min_frequency() == min_frequency,
            d.window_ms() == time_window_secs * 1000,
    {
        Self { min_frequency, time_window_ms: time_window_secs * 1000 }
    }

    /// A detector for five occurrences in five minutes.
    pub fn with_defaults() -> (d: Self)
        ensures
            d.min_frequency() == 5,
            d.window_ms() == 300000,
    {
        Self::new(5, 300)
    }

    /// Detects the patterns of a batch of entries, the most frequent first.
    pub fn detect(&self, entries: &[ProcessedEntry]) -> (out: Vec<DetectedPattern>)
        requires
            entries@.len() <= u32::MAX,
        ensures
            views(out@) == detected(views(entries@), self.min_frequency(), self.window_ms()),
    {
        if entries.len() == 0 {
            let out: Vec<DetectedPattern> = Vec::new();
            assert(views(out@) =~= Seq::<DetectedPatternView>::empty());
            return out;
        }
        let now_ms: u64 = entries[entries.len() - 1].timestamp_ms;
        assert(views(entries@).last() == entries@[entries@.len() - 1]@);
        let start: u64 = if now_ms >= self.time_window_ms {
            now_ms - self.time_window_ms
        } else {
            0
        };
        let midpoint: u64 = start + self.time_window_ms / 2;
        let min_frequency: u32 = self.min_frequency;

        let mut buckets: Vec<PatternBucket> = Vec::new();
        let mut i: usize = 0;
        assert(views(entries@).take(0) =~= Seq::<ProcessedEntryView>::empty());
        assert(views(buckets@) =~= Seq::<Tally>::empty());
        while i < entries.len()
            invariant
                i <= entries.len(),
                entries@.len() <= u32::MAX,
                views(buckets@) == tallies_of(views(entries@).take(i as int), start, midpoint),
            decreases entries.len() - i,
        {
            let entry = &entries[i];
            let ghost done = views(entries@).take(i as int);
            let ghost next = views(entries@).take(i + 1);
            let ghost before = views(buckets@);
            proof {
                assert(next.drop_last() =~= done);
                assert(next.last() == entry@);
                lemma_tallies_bounded(done, start, midpoint);
            }
            if entry.timestamp_ms >= start {
                let template = normalize(entry.message.as_str());
                let key: u64 = hash_string(template.as_str());
                let early: bool = entry.timestamp_ms < midpoint;
                match find_tally(&buckets, key) {
                    Some(j) => {
                        assert(before[j as int] == buckets@[j as int]@);
                        let ghost old_tally = buckets@[j as int]@;
                        buckets[j].count = buckets[j].count + 1;
                        buckets[j].last_seen_ms = entry.timestamp_ms;
                        buckets[j].level = buckets[j].level.higher(entry.level);
                        if early {
                            buckets[j].first_half_count = buckets[j].first_half_count + 1;
                        } else {
                            buckets[j].second_half_count = buckets[j].second_half_count + 1;
                        }
                        proof {
                            assert(buckets@[j as int]@ == counted(old_tally, entry@, midpoint));
                            assert(views(buckets@) =~= before.update(j as int, buckets@[j as int]@));
                        }
                    },
                    None => {
                        let fresh = PatternBucket {
                            key,
                            template,
                            count: 1,
                            level: entry.level,
                            first_seen_ms: entry.timestamp_ms,
                            last_seen_ms: entry.timestamp_ms,
                            first_half_count: if early {
                                1
                            } else {
                                0
                            },
                            second_half_count: if early {
                                0
                            } else {
                                1
                            },
                        };
                        assert(fresh@ == counted(opened(entry@), entry@, midpoint));
                        buckets.push(fresh);
                        assert(views(buckets@) =~= before.push(fresh@));
                    },
                }
            }
            i += 1;
        }
        assert(views(entries@).take(entries@.len() as int) =~= views(entries@));
        let ghost all = views(buckets@);

        let mut kept: Vec<usize> = Vec::new();
        let mut keys: Vec<u64> = Vec::new();
        let ghost mut chosen: Seq<Tally> = Seq::empty();
        let mut k: usize = 0;
        assert(all.take(0) =~= Seq::<Tally>::empty());
        while k < buckets.len()
            invariant
                k <= buckets.len(),
                all == views(buckets@),
                chosen == frequent(all.take(k as int), min_frequency),
                kept@.len() == chosen.len(),
                keys@ == frequencies(chosen),
                forall|q: int|
                    0 <= q < kept@.len() ==> (#[trigger] kept@[q]) < buckets@.len() && all[kept@[q] as int]
                        == chosen[q],
            decreases buckets.len() - k,
        {
            assert(all.take(k + 1).drop_last() =~= all.take(k as int));
            assert(all.take(k + 1).last() == buckets@[k as int]@);
            if buckets[k].count >= min_frequency {
                kept.push(k);
                keys.push(buckets[k].count as u64);
                proof {
                    chosen = chosen.push(all[k as int]);
                    assert(keys@ =~= frequencies(chosen));
                }
            }
            k += 1;
        }
        assert(all.take(buckets@.len() as int) =~= all);

        let order = rank_desc(&keys);
        let mut out: Vec<DetectedPattern> = Vec::new();
        let mut p: usize = 0;
        while p < order.len()
            invariant
                p <= order.len(),
                all == views(buckets@),
                order@.len() == chosen.len(),
                kept@.len() == chosen.len(),
                positions(order@) == ranked(frequencies(chosen)),
                forall|q: int|
                    0 <= q < order@.len() ==> 0 <= #[trigger] positions(order@)[q] < chosen.len(),
                forall|q: int|
                    0 <= q < kept@.len() ==> (#[trigger] kept@[q]) < buckets@.len() && all[kept@[q] as int]
                        == chosen[q],
                out@.len() == p,
                forall|q: int|
                    0 <= q < p ==> (#[trigger] out@[q])@ == pattern_of(chosen[order@[q] as int]),
            decreases order.len() - p,
        {
            assert(positions(order@)[p as int] == order@[p as int]);
            let b = &buckets[kept[order[p]]];
            let trend = detect_trend(b.first_half_count, b.second_half_count);
            out.push(
                DetectedPattern {
                    template: b.template.clone(),
                    frequency: b.count,
                    level: b.level,
                    first_seen_ms: b.first_seen_ms,
                    last_seen_ms: b.last_seen_ms,
                    trend,
                },
            );
            p += 1;
        }
        proof {
            let expected = detected(views(entries@), min_frequency, self.window_ms());
            assert(views(out@).len() == expected.len());
            assert forall|q: int| 0 <= q < expected.len() implies views(out@)[q] == expected[q] by {
                assert(positions(order@)[q] == order@[q]);
            }
            assert(views(out@) =~= expected);
        }
        out
    }

    /// Detects the `n` most frequent patterns.
    pub fn detect_top_n(&self, entries: &[ProcessedEntry], n: usize) -> (out: Vec<DetectedPattern>)
        requires
            entries@.len() <= u32::MAX,
        ensures
            views(out@) == {
                let all = detected(views(entries@), self.min_frequency(), self.window_ms());
                if n < all.len() {
                    all.take(n as int)
                } else {
                    all
                }
            },
    {
        let mut patterns = self.detect(entries);
        let ghost all = views(patterns@);
        patterns.truncate(n);
        assert(views(patterns@) =~= if n < all.len() {
            all.take(n as int)
        } else {
            all
        });
        patterns
    }
}

} // verus!
