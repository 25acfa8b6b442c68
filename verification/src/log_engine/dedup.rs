//! Deduplication: log lines that differ only in their variable parts are
//! grouped under one template and counted.

use vstd::prelude::*;
use vstd::string::StringExecFns;

use crate::log_engine::format::{clock_text, format_timestamp_short};
use crate::log_engine::{LogLevel, ProcessedEntry, ProcessedEntryView};
use crate::order::{positions, rank_desc, ranked};
use crate::outside::{hash_string, pattern_replace_all, regex_replaced, regex_valid, text_hash};
use crate::protocol::views;
use crate::text::{decimal, push_decimal};

verus! {

/// The regular expression for a UUID.
pub const UUID_PATTERN: &'static str =
    "[0-9a-fA-F]{8}-[0-9a-fA-F]{4}-[0-9a-fA-F]{4}-[0-9a-fA-F]{4}-[0-9a-fA-F]{12}";

/// The regular expression for an IPv4 address with an optional port.
pub const IP_PATTERN: &'static str = "\\d{1,3}\\.\\d{1,3}\\.\\d{1,3}\\.\\d{1,3}(:\\d+)?";

/// The regular expression for a hexadecimal number with its `0x`.
pub const HEX_PATTERN: &'static str = "0x[0-9a-fA-F]+";

/// The regular expression for a number of two digits or more.
pub const NUMBER_PATTERN: &'static str = "\\d{2,}";

/// `text` with the matches of `pattern` replaced by `placeholder`; `text`
/// itself if the pattern is no regular expression.
pub open spec fn masked(pattern: Seq<char>, text: Seq<char>, placeholder: Seq<char>) -> Seq<
    char,
> {
    if regex_valid(pattern) {
        regex_replaced(pattern, text, placeholder)
    } else {
        text
    }
}

/// The template of a message: UUIDs replaced by `<UUID>`, then IP
/// addresses by `<IP>`, then hexadecimal numbers by `<HEX>`, then numbers
/// of two digits or more by `<N>`.
pub open spec fn normalized(message: Seq<char>) -> Seq<char> {
    masked(
        NUMBER_PATTERN@,
        masked(
            HEX_PATTERN@,
            masked(IP_PATTERN@, masked(UUID_PATTERN@, message, "<UUID>"@), "<IP>"@),
            "<HEX>"@,
        ),
        "<N>"@,
    )
}

/// Replaces the matches of `pattern` in `text` by `placeholder`.
fn mask(pattern: &str, text: &str, placeholder: &str) -> (s: String)
    ensures
        s@ == masked(pattern@, text@, placeholder@),
{
    match pattern_replace_all(pattern, text, placeholder) {
        Some(s) => s,
        None => String::from_str(text),
    }
}

/// Replaces the variable parts of a message by placeholders.
pub fn normalize(message: &str) -> (s: String)
    ensures
        s@ == normalized(message@),
{
    let s = mask(UUID_PATTERN, message, "<UUID>");
    let s = mask(IP_PATTERN, s.as_str(), "<IP>");
    let s = mask(HEX_PATTERN, s.as_str(), "<HEX>");
    mask(NUMBER_PATTERN, s.as_str(), "<N>")
}

/// One group of the deduplication: a template and what was seen of it.
#[derive(Debug, Clone)]
pub struct DedupResult {
    pub template: String,
    /// The number of entries in the group.
    pub count: u64,
    pub first_seen_ms: u64,
    pub last_seen_ms: u64,
    /// The most severe level in the group.
    pub level: LogLevel,
    /// The message of the entry that opened the group.
    pub sample: String,
}

/// The mathematical content of a [`DedupResult`].
pub struct DedupResultView {
    pub template: Seq<char>,
    pub count: nat,
    pub first_seen_ms: u64,
    pub last_seen_ms: u64,
    pub level: LogLevel,
    pub sample: Seq<char>,
}

impl View for DedupResult {
    type V = DedupResultView;

    open spec fn view(&self) -> DedupResultView {
        DedupResultView {
            template: self.template@,
            count: self.count as nat,
            first_seen_ms: self.first_seen_ms,
            last_seen_ms: self.last_seen_ms,
            level: self.level,
            sample: self.sample@,
        }
    }
}

/// A group while it is being built: a result under the hash of its
/// template.
pub struct Bucket {
    pub key: u64,
    pub group: DedupResultView,
}

/// The group that an entry opens.
pub open spec fn fresh_group(e: ProcessedEntryView) -> DedupResultView {
    DedupResultView {
        template: normalized(e.message),
        count: 1,
        first_seen_ms: e.timestamp_ms,
        last_seen_ms: e.timestamp_ms,
        level: e.level,
        sample: e.message,
    }
}

/// The group `g` after it has taken in the entry `e`.
pub open spec fn joined_group(g: DedupResultView, e: ProcessedEntryView) -> DedupResultView {
    DedupResultView {
        count: g.count + 1,
        last_seen_ms: e.timestamp_ms,
        level: g.level.max(e.level),
        ..g
    }
}

/// The position of the bucket with key `key`, if there is one.
pub open spec fn bucket_index(buckets: Seq<Bucket>, key: u64) -> Option<int>
    decreases buckets.len(),
{
    if buckets.len() == 0 {
        None
    } else if buckets.last().key == key {
        Some(buckets.len() - 1)
    } else {
        bucket_index(buckets.drop_last(), key)
    }
}

/// Whether an entry at `now` falls into the window of a group last seen at
/// `last_seen`: it is at most `window_ms` later, or not later at all.
pub open spec fn in_window(now: u64, last_seen: u64, window_ms: u64) -> bool {
    now <= last_seen || now - last_seen <= window_ms
}

/// The buckets after one more entry. The entry joins the bucket of its
/// template's hash if it falls into that group's window; it opens a new
/// group in its place if it does not; it opens a new bucket at the end if
/// there is none.
pub open spec fn absorbed(buckets: Seq<Bucket>, e: ProcessedEntryView, window_ms: u64) -> Seq<
    Bucket,
> {
    let key = text_hash(normalized(e.message));
    match bucket_index(buckets, key) {
        Some(i) => if in_window(e.timestamp_ms, buckets[i].group.last_seen_ms, window_ms) {
            buckets.update(i, Bucket { key, group: joined_group(buckets[i].group, e) })
        } else {
            buckets.update(i, Bucket { key, group: fresh_group(e) })
        },
        None => buckets.push(Bucket { key, group: fresh_group(e) }),
    }
}

/// The buckets that a batch of entries fills, taken in order.
pub open spec fn buckets_of(entries: Seq<ProcessedEntryView>, window_ms: u64) -> Seq<Bucket>
    decreases entries.len(),
{
    if entries.len() == 0 {
        Seq::empty()
    } else {
        absorbed(buckets_of(entries.drop_last(), window_ms), entries.last(), window_ms)
    }
}

/// The counts of a sequence of buckets, capped at 64 bits.
pub open spec fn counts(buckets: Seq<Bucket>) -> Seq<u64> {
    buckets.map_values(|b: Bucket| b.group.count as u64)
}

/// The groups of a batch of entries, the most frequent first; groups of
/// equal frequency in the order in which they were opened.
pub open spec fn deduplicated(entries: Seq<ProcessedEntryView>, window_ms: u64) -> Seq<
    DedupResultView,
> {
    let buckets = buckets_of(entries, window_ms);
    ranked(counts(buckets)).map_values(|i: int| buckets[i].group)
}

/// No group counts more entries than there are, and there are no more
/// groups than entries.
pub proof fn lemma_counts_bounded(entries: Seq<ProcessedEntryView>, window_ms: u64)
    ensures
        buckets_of(entries, window_ms).len() <= entries.len(),
        forall|i: int|
            0 <= i < buckets_of(entries, window_ms).len() ==> 1 <= (#[trigger] buckets_of(
                entries,
                window_ms,
            )[i]).group.count <= entries.len(),
    decreases entries.len(),
{
    if entries.len() > 0 {
        lemma_counts_bounded(entries.drop_last(), window_ms);
        let before = buckets_of(entries.drop_last(), window_ms);
        let key = text_hash(normalized(entries.last().message));
        lemma_bucket_index(before, key);
    }
}

/// Where `bucket_index` finds a key, the bucket there has it.
pub proof fn lemma_bucket_index(buckets: Seq<Bucket>, key: u64)
    ensures
        match bucket_index(buckets, key) {
            Some(i) => 0 <= i < buckets.len() && buckets[i].key == key,
            None => forall|j: int| 0 <= j < buckets.len() ==> (#[trigger] buckets[j]).key != key,
        },
    decreases buckets.len(),
{
    if buckets.len() > 0 && buckets.last().key != key {
        let front = buckets.drop_last();
        lemma_bucket_index(front, key);
        if bucket_index(front, key) is None {
            assert forall|j: int| 0 <= j < buckets.len() implies (#[trigger] buckets[j]).key
                != key by {
                if j < front.len() {
                    assert(buckets[j] == front[j]);
                }
            }
        }
    }
}

/// A group while the engine builds it.
struct DedupEntry {
    key: u64,
    template: String,
    count: u64,
    first_seen_ms: u64,
    last_seen_ms: u64,
    level: LogLevel,
    sample: String,
}

impl View for DedupEntry {
    type V = Bucket;

    closed spec fn view(&self) -> Bucket {
        Bucket {
            key: self.key,
            group: DedupResultView {
                template: self.template@,
                count: self.count as nat,
                first_seen_ms: self.first_seen_ms,
                last_seen_ms: self.last_seen_ms,
                level: self.level,
                sample: self.sample@,
            },
        }
    }
}

/// Groups log entries by template within a sliding time window.
pub struct DedupEngine {
    entries: Vec<DedupEntry>,
    window_ms: u64,
}

/// Finds the bucket with the given key.
fn find_bucket(entries: &Vec<DedupEntry>, key: u64) -> (r: Option<usize>)
    ensures
        match r {
            Some(i) => bucket_index(views(entries@), key) == Some(i as int) && i < entries@.len(),
            None => bucket_index(views(entries@), key) is None,
        },
{
    let mut i: usize = entries.len();
    assert(views(entries@).take(i as int) =~= views(entries@));
    while i > 0
        invariant
            i <= entries.len(),
            bucket_index(views(entries@), key) == bucket_index(
                views(entries@).take(i as int),
                key,
            ),
        decreases i,
    {
        i -= 1;
        assert(views(entries@).take(i + 1).drop_last() =~= views(entries@).take(i as int));
        assert(views(entries@).take(i + 1).last() == entries@[i as int]@);
        if entries[i].key == key {
            return Some(i);
        }
    }
    None
}

impl DedupEngine {
    /// The length of the window in milliseconds.
    pub closed spec fn window_ms(&self) -> u64 {
        self.window_ms
    }

    /// An engine with a window of `window_secs` seconds.
    pub fn new(window_secs: u64) -> (e: Self)
        requires
            window_secs * 1000 <= u64::MAX,
        ensures
            e.window_ms() == window_secs * 1000,
    {
        Self { entries: Vec::new(), window_ms: window_secs * 1000 }
    }

    /// An engine with a window of one minute.
    pub fn with_defaults() -> (e: Self)
        ensures
            e.window_ms() == 60000,
    {
        Self::new(60)
    }

    /// Groups a batch of entries. Whatever the engine grouped before is
    /// forgotten.
    pub fn deduplicate(&mut self, entries: &[ProcessedEntry]) -> (out: Vec<DedupResult>)
        ensures
            final(self).window_ms() == old(self).window_ms(),
            views(out@) == deduplicated(views(entries@), old(self).window_ms()),
    {
        let window_ms: u64 = self.window_ms;
        let mut buckets: Vec<DedupEntry> = Vec::new();
        let mut i: usize = 0;
        assert(views(entries@).take(0) =~= Seq::<ProcessedEntryView>::empty());
        assert(views(buckets@) =~= Seq::<Bucket>::empty());
        while i < entries.len()
            invariant
                i <= entries.len(),
                views(buckets@) == buckets_of(views(entries@).take(i as int), window_ms),
            decreases entries.len() - i,
        {
            let entry = &entries[i];
            let ghost done = views(entries@).take(i as int);
            let ghost next = views(entries@).take(i + 1);
            let ghost before = views(buckets@);
            proof {
                assert(next.drop_last() =~= done);
                assert(next.last() == entry@);
                lemma_counts_bounded(done, window_ms);
            }
            let template = normalize(entry.message.as_str());
            let key: u64 = hash_string(template.as_str());
            let fresh = DedupEntry {
                key,
                template,
                count: 1,
                first_seen_ms: entry.timestamp_ms,
                last_seen_ms: entry.timestamp_ms,
                level: entry.level,
                sample: entry.message.clone(),
            };
            assert(fresh@ == Bucket { key, group: fresh_group(entry@) });
            match find_bucket(&buckets, key) {
                Some(j) => {
                    assert(before[j as int] == buckets@[j as int]@);
                    let last_seen: u64 = buckets[j].last_seen_ms;
                    if entry.timestamp_ms <= last_seen || entry.timestamp_ms - last_seen
                        <= window_ms {
                        let ghost old_entry = buckets@[j as int]@;
                        buckets[j].count = buckets[j].count + 1;
                        buckets[j].last_seen_ms = entry.timestamp_ms;
                        buckets[j].level = buckets[j].level.higher(entry.level);
                        proof {
                            lemma_bucket_index(before, key);
                            assert(buckets@[j as int]@ == Bucket {
                                key,
                                group: joined_group(old_entry.group, entry@),
                            });
                            assert(views(buckets@) =~= before.update(j as int, buckets@[j as int]@));
                        }
                    } else {
                        buckets.set(j, fresh);
                        assert(views(buckets@) =~= before.update(j as int, fresh@));
                    }
                },
                None => {
                    buckets.push(fresh);
                    assert(views(buckets@) =~= before.push(fresh@));
                },
            }
            i += 1;
        }
        assert(views(entries@).take(entries@.len() as int) =~= views(entries@));
        let ghost all = views(buckets@);
        let mut keys: Vec<u64> = Vec::new();
        let mut k: usize = 0;
        while k < buckets.len()
            invariant
                k <= buckets.len(),
                all == views(buckets@),
                keys@ == counts(all).take(k as int),
            decreases buckets.len() - k,
        {
            keys.push(buckets[k].count);
            k += 1;
            assert(keys@ =~= counts(all).take(k as int));
        }
        assert(counts(all).take(buckets@.len() as int) =~= counts(all));
        let order = rank_desc(&keys);
        let mut out: Vec<DedupResult> = Vec::new();
        let mut p: usize = 0;
        while p < order.len()
            invariant
                p <= order.len(),
                all == views(buckets@),
                order@.len() == all.len(),
                positions(order@) == ranked(counts(all)),
                forall|q: int| 0 <= q < order@.len() ==> 0 <= #[trigger] positions(order@)[q] < all.len(),
                out@.len() == p,
                forall|q: int| 0 <= q < p ==> (#[trigger] out@[q])@ == all[order@[q] as int].group,
            decreases order.len() - p,
        {
            assert(positions(order@)[p as int] == order@[p as int]);
            let b = &buckets[order[p]];
            out.push(
                DedupResult {
                    template: b.template.clone(),
                    count: b.count,
                    first_seen_ms: b.first_seen_ms,
                    last_seen_ms: b.last_seen_ms,
                    level: b.level,
                    sample: b.sample.clone(),
                },
            );
            p += 1;
        }
        proof {
            let expected = deduplicated(views(entries@), window_ms);
            assert(views(out@).len() == expected.len());
            assert forall|q: int| 0 <= q < expected.len() implies views(out@)[q] == expected[q] by {
                assert(positions(order@)[q] == order@[q]);
            }
            assert(views(out@) =~= expected);
        }
        self.entries = buckets;
        out
    }
}

/// A group as shown to the user: the sample alone for a single entry, else
/// `sample (xCOUNT, first: HH:MM:SS, last: HH:MM:SS)`.
pub open spec fn dedup_text(r: DedupResultView) -> Seq<char> {
    if r.count > 1 {
        r.sample + " (x"@ + decimal(r.count) + ", first: "@ + clock_text(r.first_seen_ms)
            + ", last: "@ + clock_text(r.last_seen_ms) + ")"@
    } else {
        r.sample
    }
}

/// Formats a group for display.
pub fn format_dedup_result(r: &DedupResult) -> (s: String)
    ensures
        s@ == dedup_text(r@),
{
    if r.count > 1 {
        let first = format_timestamp_short(r.first_seen_ms);
        let last = format_timestamp_short(r.last_seen_ms);
        let mut out = r.sample.clone();
        out.append(" (x");
        push_decimal(&mut out, r.count);
        out.append(", first: ");
        out.append(first.as_str());
        out.append(", last: ");
        out.append(last.as_str());
        out.append(")");
        assert(out@ =~= dedup_text(r@));
        out
    } else {
        r.sample.clone()
    }
}

} // verus!
