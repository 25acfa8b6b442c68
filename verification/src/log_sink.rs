//! The in-memory side of the log sink: a ring that keeps the latest
//! entries of a process, and the read-back that orders them by time.

use std::collections::VecDeque;
use vstd::prelude::*;
use vstd::string::StringExecFns;

use crate::order::{
    is_stable_desc, lemma_arranged_multiset, lemma_ranked, positions, rank_desc, ranked,
};
use crate::protocol::{views, LogEntry, LogEntryView};

verus! {

/// The number of entries that the ring of a process keeps.
pub const RING_CAPACITY: usize = 10000;

/// The stream of a child's standard output.
pub const STDOUT: u8 = 0;

/// The stream of a child's standard error.
pub const STDERR: u8 = 1;

/// The level that lines of a child's output are tagged with.
pub const LEVEL_INFO: u8 = 1;

/// The name of the file that holds what the process `name` wrote to a
/// stream: `<name>-err.log` for standard error, `<name>-out.log` for any
/// other stream.
pub open spec fn log_file_of(name: Seq<char>, stream: u8) -> Seq<char> {
    name + if stream == STDERR {
        "-err.log"@
    } else {
        "-out.log"@
    }
}

/// The name of the log file of a process for a stream.
pub fn log_file_name(name: &str, stream: u8) -> (file: String)
    ensures
        file@ == log_file_of(name@, stream),
{
    let suffix: &str = if stream == STDERR {
        "-err.log"
    } else {
        "-out.log"
    };
    String::from_str(name).concat(suffix)
}

/// The entries of a ring of the given capacity after one more: the oldest
/// is dropped where the ring is full.
pub open spec fn appended(entries: Seq<LogEntryView>, e: LogEntryView, capacity: nat) -> Seq<
    LogEntryView,
> {
    if capacity == 0 {
        entries
    } else if entries.len() >= capacity {
        entries.drop_first().push(e)
    } else {
        entries.push(e)
    }
}

/// The latest `n` of the entries, or all where there are fewer.
pub open spec fn latest(entries: Seq<LogEntryView>, n: nat) -> Seq<LogEntryView> {
    if n >= entries.len() {
        entries
    } else {
        entries.skip(entries.len() - n)
    }
}

/// The keys by which entries are ranked by stream: the lower the stream,
/// the higher the key.
pub open spec fn stream_keys(entries: Seq<LogEntryView>) -> Seq<u64> {
    entries.map_values(|e: LogEntryView| (255 - e.stream) as u64)
}

/// The entries arranged by ascending stream, entries of one stream in
/// their given order.
pub open spec fn by_stream(entries: Seq<LogEntryView>) -> Seq<LogEntryView> {
    ranked(stream_keys(entries)).map_values(|i: int| entries[i])
}

/// The keys by which entries are ranked by time: the earlier the entry,
/// the higher the key.
pub open spec fn time_keys(entries: Seq<LogEntryView>) -> Seq<u64> {
    entries.map_values(|e: LogEntryView| (u64::MAX - e.timestamp_ms) as u64)
}

/// The entries arranged by ascending timestamp, entries of one timestamp
/// in their given order.
pub open spec fn by_time(entries: Seq<LogEntryView>) -> Seq<LogEntryView> {
    ranked(time_keys(entries)).map_values(|i: int| entries[i])
}

/// The entries interleaved across streams: by ascending timestamp, entries
/// of one timestamp by ascending stream, entries of one timestamp and
/// stream in their given order.
pub open spec fn interleaved(entries: Seq<LogEntryView>) -> Seq<LogEntryView> {
    by_time(by_stream(entries))
}

/// Whether `a` comes no later than `b` in the read-back: it is earlier, or
/// of the same time and of no higher stream.
pub open spec fn in_order(a: LogEntryView, b: LogEntryView) -> bool {
    a.timestamp_ms < b.timestamp_ms || (a.timestamp_ms == b.timestamp_ms && a.stream <= b.stream)
}

/// Whether the timestamps of each stream never fall along the entries.
pub open spec fn monotone_per_stream(entries: Seq<LogEntryView>) -> bool {
    forall|i: int, j: int|
        0 <= i < j < entries.len() && (#[trigger] entries[i]).stream == (#[trigger] entries[j]).stream
            ==> entries[i].timestamp_ms <= entries[j].timestamp_ms
}

/// The read-back is ordered: by timestamp, then by stream. It holds the
/// same entries as were given, each as often.
pub proof fn lemma_interleaved(entries: Seq<LogEntryView>)
    ensures
        interleaved(entries).len() == entries.len(),
        forall|p: int, q: int|
            0 <= p < q < entries.len() ==> in_order(
                #[trigger] interleaved(entries)[p],
                #[trigger] interleaved(entries)[q],
            ),
        interleaved(entries).to_multiset() == entries.to_multiset(),
{
    let a = ranked(stream_keys(entries));
    lemma_ranked(stream_keys(entries));
    let sorted = by_stream(entries);
    let b = ranked(time_keys(sorted));
    lemma_ranked(time_keys(sorted));
    let out = interleaved(entries);
    assert forall|p: int, q: int| 0 <= p < q < entries.len() implies in_order(
        #[trigger] out[p],
        #[trigger] out[q],
    ) by {
        assert(out[p] == sorted[b[p]] && out[q] == sorted[b[q]]);
        assert(time_keys(sorted)[b[p]] >= time_keys(sorted)[b[q]]);
        if out[p].timestamp_ms == out[q].timestamp_ms {
            assert(b[p] < b[q]);
            assert(sorted[b[p]] == entries[a[b[p]]] && sorted[b[q]] == entries[a[b[q]]]);
            assert(stream_keys(entries)[a[b[p]]] >= stream_keys(entries)[a[b[q]]]);
        }
    }
    lemma_arranged_multiset(entries, a);
    lemma_arranged_multiset(sorted, b);
}

/// Appending keeps the timestamps of each stream from falling, provided
/// that the new entry is no earlier than the entries of its stream.
pub proof fn lemma_append_keeps_monotone(entries: Seq<LogEntryView>, e: LogEntryView, capacity: nat)
    requires
        monotone_per_stream(entries),
        forall|i: int|
            0 <= i < entries.len() && (#[trigger] entries[i]).stream == e.stream
                ==> entries[i].timestamp_ms <= e.timestamp_ms,
    ensures
        monotone_per_stream(appended(entries, e, capacity)),
        appended(entries, e, capacity).len() <= if capacity > entries.len() {
            capacity
        } else {
            entries.len()
        },
{
    let after = appended(entries, e, capacity);
    assert forall|i: int, j: int|
        0 <= i < j < after.len() && (#[trigger] after[i]).stream == (
        #[trigger] after[j]).stream implies after[i].timestamp_ms <= after[j].timestamp_ms by {
        if capacity == 0 {
        } else if entries.len() >= capacity {
            assert(after[i] == entries[i + 1]);
            if j < after.len() - 1 {
                assert(after[j] == entries[j + 1]);
            }
        } else {
            assert(after[i] == entries[i]);
            if j < after.len() - 1 {
                assert(after[j] == entries[j]);
            }
        }
    }
}

/// The ring of one process: its latest log entries, oldest first.
pub struct LogRing {
    entries: VecDeque<LogEntry>,
    capacity: usize,
}

impl View for LogRing {
    type V = Seq<LogEntryView>;

    closed spec fn view(&self) -> Seq<LogEntryView> {
        views(self.entries@)
    }
}

impl LogRing {
    /// The number of entries that the ring keeps.
    pub closed spec fn capacity(&self) -> nat {
        self.capacity as nat
    }

    #[verifier::type_invariant]
    spec fn within_capacity(&self) -> bool {
        self.entries@.len() <= self.capacity
    }

    /// An empty ring that keeps `capacity` entries.
    pub fn new(capacity: usize) -> (ring: Self)
        ensures
            ring@ == Seq::<LogEntryView>::empty(),
            ring.capacity() == capacity,
    {
        let ring = Self { entries: VecDeque::new(), capacity };
        assert(ring@ =~= Seq::<LogEntryView>::empty());
        ring
    }

    /// An empty ring of the usual capacity.
    pub fn with_defaults() -> (ring: Self)
        ensures
            ring@ == Seq::<LogEntryView>::empty(),
            ring.capacity() == 10000,
    {
        Self::new(RING_CAPACITY)
    }

    /// The number of entries in the ring, which never exceeds its capacity.
    pub fn len(&self) -> (n: usize)
        ensures
            n == self@.len(),
            n <= self.capacity(),
    {
        proof {
            use_type_invariant(self);
        }
        self.entries.len()
    }

    /// Appends an entry; where the ring is full, its oldest entry makes
    /// room.
    pub fn push(&mut self, entry: LogEntry)
        ensures
            final(self)@ == appended(old(self)@, entry@, old(self).capacity()),
            final(self).capacity() == old(self).capacity(),
    {
        proof {
            use_type_invariant(&*self);
        }
        if self.capacity == 0 {
            return ;
        }
        let ghost before = self@;
        let capacity: usize = self.capacity;
        let mut entries: VecDeque<LogEntry> = VecDeque::new();
        core::mem::swap(&mut entries, &mut self.entries);
        if entries.len() >= capacity {
            let _ = entries.pop_front();
            assert(views(entries@) =~= before.drop_first());
        }
        entries.push_back(entry);
        assert(views(entries@) =~= appended(before, entry@, capacity as nat));
        *self = LogRing { entries, capacity };
    }

    /// The latest `lines` entries, interleaved across streams: ordered by
    /// timestamp, entries of one timestamp by stream.
    pub fn read(&self, lines: u32) -> (out: Vec<LogEntry>)
        ensures
            views(out@) == interleaved(latest(self@, lines as nat)),
    {
        let n: usize = self.entries.len();
        let start: usize = if lines as usize >= n {
            0
        } else {
            n - lines as usize
        };
        let ghost tail = latest(self@, lines as nat);
        assert(tail =~= self@.skip(start as int));

        // First by stream.
        let mut keys: Vec<u64> = Vec::new();
        let mut i: usize = start;
        while i < n
            invariant
                start <= i <= n,
                n == self.entries@.len(),
                tail == self@.skip(start as int),
                keys@ == stream_keys(tail).take(i - start),
            decreases n - i,
        {
            keys.push((255 - self.entries[i].stream) as u64);
            i += 1;
            assert(keys@ =~= stream_keys(tail).take(i - start));
        }
        assert(stream_keys(tail).take(n - start) =~= stream_keys(tail));
        let first = rank_desc(&keys);
        let ghost sorted = by_stream(tail);

        // Then by time, which keeps entries of one time in stream order.
        let mut times: Vec<u64> = Vec::new();
        let mut j: usize = 0;
        while j < first.len()
            invariant
                j <= first.len(),
                n == self.entries@.len(),
                start <= n,
                tail == self@.skip(start as int),
                sorted == by_stream(tail),
                first@.len() == tail.len(),
                positions(first@) == ranked(stream_keys(tail)),
                is_stable_desc(stream_keys(tail), positions(first@), tail.len()),
                times@ == time_keys(sorted).take(j as int),
            decreases first.len() - j,
        {
            assert(positions(first@)[j as int] == first@[j as int]);
            let e = &self.entries[start + first[j]];
            assert(e@ == sorted[j as int]);
            times.push(u64::MAX - e.timestamp_ms);
            j += 1;
            assert(times@ =~= time_keys(sorted).take(j as int));
        }
        assert(time_keys(sorted).take(sorted.len() as int) =~= time_keys(sorted));
        let second = rank_desc(&times);

        let mut out: Vec<LogEntry> = Vec::new();
        let mut p: usize = 0;
        while p < second.len()
            invariant
                p <= second.len(),
                n == self.entries@.len(),
                start <= n,
                tail == self@.skip(start as int),
                sorted == by_stream(tail),
                first@.len() == tail.len(),
                second@.len() == tail.len(),
                positions(first@) == ranked(stream_keys(tail)),
                is_stable_desc(stream_keys(tail), positions(first@), tail.len()),
                positions(second@) == ranked(time_keys(sorted)),
                is_stable_desc(time_keys(sorted), positions(second@), sorted.len()),
                out@.len() == p,
                forall|q: int| 0 <= q < p ==> (#[trigger] out@[q])@ == interleaved(tail)[q],
            decreases second.len() - p,
        {
            assert(positions(second@)[p as int] == second@[p as int]);
            let at: usize = second[p];
            assert(positions(first@)[at as int] == first@[at as int]);
            let e = &self.entries[start + first[at]];
            assert(e@ == sorted[at as int]);
            out.push(
                LogEntry {
                    timestamp_ms: e.timestamp_ms,
                    level: e.level,
                    stream: e.stream,
                    message: e.message.clone(),
                },
            );
            p += 1;
        }
        assert(views(out@) =~= interleaved(tail));
        out
    }
}

} // verus!
