//! Restarts on file changes: which changed paths count for a process, and
//! the debounce that turns a burst of changes into one restart.

use vstd::prelude::*;

use crate::text::{chars_of, has_prefix, pieces, split, starts_with, texts};

verus! {

// ------------------------------------------------------------------
// Which paths count
// ------------------------------------------------------------------
/// Whether `path` is `root` or lies below it. The empty root holds nothing.
pub open spec fn within(path: Seq<char>, root: Seq<char>) -> bool {
    root.len() > 0 && starts_with(path, root) && (path.len() == root.len() || root.last() == '/'
        || path[root.len() as int] == '/')
}

/// Whether `path` lies within one of the first `n` of the `roots`.
pub open spec fn within_any(path: Seq<char>, roots: Seq<Seq<char>>, n: int) -> bool {
    exists|i: int| 0 <= i < n && i < roots.len() && within(path, #[trigger] roots[i])
}

/// Whether one of the first `n` of the `names` is `part`, and not empty.
pub open spec fn named(part: Seq<char>, names: Seq<Seq<char>>, n: int) -> bool {
    exists|j: int| 0 <= j < n && j < names.len() && part.len() > 0 && #[trigger] names[j] == part
}

/// Whether one of the first `n` components of a path is among the `names`.
pub open spec fn any_named(parts: Seq<Seq<char>>, names: Seq<Seq<char>>, n: int) -> bool {
    exists|i: int|
        0 <= i < n && i < parts.len() && named(#[trigger] parts[i], names, names.len() as int)
}

/// Whether a change of `path` counts: the path lies within one of the
/// watched paths, and none of its components is an ignored name. Both lists
/// are separated by semicolons.
pub open spec fn watched(path: Seq<char>, watch_paths: Seq<char>, watch_ignore: Seq<char>) -> bool {
    let roots = pieces(watch_paths, ';');
    let parts = pieces(path, '/');
    within_any(path, roots, roots.len() as int) && !any_named(
        parts,
        pieces(watch_ignore, ';'),
        parts.len() as int,
    )
}

/// Tells whether `path` is `root` or lies below it.
pub fn is_within(path: &[char], root: &[char]) -> (r: bool)
    ensures
        r == within(path@, root@),
{
    let n: usize = root.len();
    n > 0 && has_prefix(path, root) && (path.len() == n || root[n - 1] == '/' || path[n] == '/')
}

/// Tells whether two texts are the same.
fn same(a: &[char], b: &[char]) -> (r: bool)
    ensures
        r == (a@ == b@),
{
    if a.len() != b.len() {
        return false;
    }
    let r = has_prefix(a, b);
    assert(a@.take(a@.len() as int) =~= a@);
    r
}

/// Tells whether `part` is one of the `names`, and not empty.
fn is_named(part: &[char], names: &Vec<Vec<char>>) -> (r: bool)
    ensures
        r == named(part@, texts(names@), names@.len() as int),
{
    if part.len() == 0 {
        return false;
    }
    let ghost all = texts(names@);
    let mut j: usize = 0;
    while j < names.len()
        invariant
            j <= names.len(),
            part@.len() > 0,
            all == texts(names@),
            !named(part@, all, j as int),
        decreases names.len() - j,
    {
        if same(names[j].as_slice(), part) {
            assert(all[j as int] == part@);
            return true;
        }
        assert(all[j as int] != part@);
        j += 1;
    }
    false
}

/// Tells whether a change of `path` counts for a process that watches
/// `watch_paths` and ignores `watch_ignore`.
pub fn is_watched(path: &str, watch_paths: &str, watch_ignore: &str) -> (r: bool)
    ensures
        r == watched(path@, watch_paths@, watch_ignore@),
{
    let path_chars = chars_of(path);
    let roots = split(chars_of(watch_paths).as_slice(), ';');
    let names = split(chars_of(watch_ignore).as_slice(), ';');
    let parts = split(path_chars.as_slice(), '/');
    let ghost all_roots = texts(roots@);
    let ghost all_parts = texts(parts@);
    let ghost all_names = texts(names@);
    let mut found: bool = false;
    let mut i: usize = 0;
    while i < roots.len() && !found
        invariant
            i <= roots.len(),
            all_roots == texts(roots@),
            path_chars@ == path@,
            found ==> within_any(path@, all_roots, all_roots.len() as int),
            !found ==> !within_any(path@, all_roots, i as int),
        decreases roots.len() - i,
    {
        if is_within(path_chars.as_slice(), roots[i].as_slice()) {
            assert(within(path@, all_roots[i as int]));
            found = true;
        } else {
            assert(!within(path@, all_roots[i as int]));
        }
        i += 1;
    }
    if !found {
        return false;
    }
    let mut k: usize = 0;
    while k < parts.len()
        invariant
            k <= parts.len(),
            all_parts == texts(parts@),
            all_parts == pieces(path@, '/'),
            all_names == texts(names@),
            all_names == pieces(watch_ignore@, ';'),
            all_roots == pieces(watch_paths@, ';'),
            within_any(path@, all_roots, all_roots.len() as int),
            !any_named(all_parts, all_names, k as int),
        decreases parts.len() - k,
    {
        if is_named(parts[k].as_slice(), &names) {
            assert(named(all_parts[k as int], all_names, all_names.len() as int));
            return false;
        }
        assert(!named(all_parts[k as int], all_names, all_names.len() as int));
        k += 1;
    }
    true
}

// ------------------------------------------------------------------
// Debounce
// ------------------------------------------------------------------
/// The debounce of one process: the time at which a restart falls due, if a
/// change is waiting.
#[derive(Debug, Clone, Copy, PartialEq, Eq, Structural)]
pub struct Debounce {
    pub due_at: Option<u64>,
}

impl Debounce {
    /// The debounce with no change waiting.
    pub open spec fn idle() -> Debounce {
        Debounce { due_at: None }
    }

    /// The debounce after a change at `now`: the restart falls due
    /// `delay_ms` later, whatever was waiting before.
    pub open spec fn noted(self, now: u64, delay_ms: u32) -> Debounce {
        Debounce {
            due_at: Some(
                if now + delay_ms > u64::MAX {
                    u64::MAX
                } else {
                    (now + delay_ms) as u64
                },
            ),
        }
    }

    /// Whether a restart is due at `now`.
    pub open spec fn due(self, now: u64) -> bool {
        self.due_at matches Some(t) && t <= now
    }

    /// The debounce after a look at the clock at `now`: a restart that was
    /// due is no longer waiting.
    pub open spec fn ticked(self, now: u64) -> Debounce {
        if self.due(now) {
            Debounce::idle()
        } else {
            self
        }
    }

    /// A debounce with no change waiting.
    pub fn new() -> (d: Self)
        ensures
            d == Debounce::idle(),
    {
        Debounce { due_at: None }
    }

    /// Notes a change that counts, seen at `now`.
    pub fn on_change(&mut self, now: u64, delay_ms: u32)
        ensures
            *final(self) == old(self).noted(now, delay_ms),
    {
        let delay: u64 = delay_ms as u64;
        let at: u64 = if now > u64::MAX - delay {
            u64::MAX
        } else {
            now + delay
        };
        self.due_at = Some(at);
    }

    /// Looks at the clock: tells whether the process is to be restarted
    /// now, and if so stops waiting.
    pub fn on_tick(&mut self, now: u64) -> (restart: bool)
        ensures
            restart == old(self).due(now),
            *final(self) == old(self).ticked(now),
    {
        match self.due_at {
            Some(t) => {
                if t <= now {
                    self.due_at = None;
                    true
                } else {
                    false
                }
            },
            None => false,
        }
    }
}

/// No restart falls due before the delay has passed since the last change,
/// as long as the clock can tell that time.
pub proof fn lemma_quiet_within_delay(d: Debounce, at: u64, delay_ms: u32, now: u64)
    requires
        at + delay_ms <= u64::MAX,
        now < at + delay_ms,
    ensures
        !d.noted(at, delay_ms).due(now),
{
}

/// Once the delay has passed since the last change, the restart falls due,
/// and after it none is due until the next change.
pub proof fn lemma_one_restart_per_burst(d: Debounce, at: u64, delay_ms: u32, now: u64, later: u64)
    requires
        at + delay_ms <= now,
    ensures
        d.noted(at, delay_ms).due(now),
        !d.noted(at, delay_ms).ticked(now).due(later),
{
}

/// Of several changes only the last one counts for the time of the restart.
pub proof fn lemma_last_change_counts(d: Debounce, first: u64, last: u64, delay_ms: u32)
    ensures
        d.noted(first, delay_ms).noted(last, delay_ms) == Debounce::idle().noted(last, delay_ms),
{
}

/// Without a change nothing falls due.
pub proof fn lemma_idle_stays_idle(now: u64)
    ensures
        !Debounce::idle().due(now),
        Debounce::idle().ticked(now) == Debounce::idle(),
{
}

} // verus!
