//! What the child runner decides without touching a process: the command
//! line of a child, the lines of its output, and the marks of readiness
//! and shutdown.

use vstd::prelude::*;
use vstd::string::StringExecFns;

use crate::log_sink::{LEVEL_INFO, STDERR};
use crate::protocol::{LogEntry, LogEntryView};
use crate::text::str_eq;
use crate::outside::{lossy_text, utf8_lossy};

verus! {

/// The line that a child prints on its standard output to report that it
/// is ready.
pub const READY_SENTINEL: &'static str = "VELOS_READY";

/// What is written on the standard input of a child that is asked to shut
/// down by message.
pub const SHUTDOWN_MESSAGE: &'static str = "{\"type\":\"shutdown\"}\n";

/// The texts of a list of strings.
pub open spec fn texts(items: Seq<String>) -> Seq<Seq<char>> {
    items.map_values(|s: String| s@)
}

/// The command line of a child: the interpreter, if there is one, then
/// the script, then the arguments.
pub open spec fn argv_of(interpreter: Seq<char>, script: Seq<char>, args: Seq<Seq<char>>) -> Seq<
    Seq<char>,
> {
    if interpreter.len() > 0 {
        seq![interpreter, script] + args
    } else {
        seq![script] + args
    }
}

/// Resolves the command line of a child.
pub fn command_line(interpreter: &str, script: &str, args: &Vec<String>) -> (argv: Vec<String>)
    ensures
        texts(argv@) == argv_of(interpreter@, script@, texts(args@)),
{
    let mut argv: Vec<String> = Vec::new();
    if !interpreter.is_empty() {
        argv.push(String::from_str(interpreter));
    }
    argv.push(String::from_str(script));
    let ghost head = texts(argv@);
    let mut i: usize = 0;
    assert(texts(args@).take(0) =~= Seq::<Seq<char>>::empty());
    assert(texts(argv@) =~= head + texts(args@).take(0));
    while i < args.len()
        invariant
            i <= args.len(),
            texts(argv@) == head + texts(args@).take(i as int),
        decreases args.len() - i,
    {
        let ghost before = texts(argv@);
        let item: String = args[i].clone();
        argv.push(item);
        i += 1;
        assert(texts(args@).take(i as int) =~= texts(args@).take(i - 1).push(args@[i - 1]@));
        assert(texts(argv@) =~= before.push(item@));
        assert(texts(argv@) =~= head + texts(args@).take(i as int));
    }
    assert(texts(args@).take(args@.len() as int) =~= texts(args@));
    assert(head =~= if interpreter@.len() > 0 {
        seq![interpreter@, script@]
    } else {
        seq![script@]
    });
    argv
}

/// The directory in which a child runs: its own, or the daemon's where it
/// names none.
pub fn working_dir<'a>(cwd: &'a str, daemon_cwd: &'a str) -> (dir: &'a str)
    ensures
        dir@ == if cwd@.len() > 0 {
            cwd@
        } else {
            daemon_cwd@
        },
{
    if cwd.is_empty() {
        daemon_cwd
    } else {
        cwd
    }
}

/// Tells whether a line of a child's standard output is the readiness
/// sentinel.
pub fn is_ready_line(line: &str) -> (ready: bool)
    ensures
        ready == (line@ == READY_SENTINEL@),
{
    str_eq(line, READY_SENTINEL)
}

/// The complete lines of a run of bytes: every line that ends in a line
/// feed, without the line feed.
pub open spec fn complete_lines(bytes: Seq<u8>) -> Seq<Seq<u8>>
    decreases bytes.len(),
{
    if bytes.len() == 0 {
        Seq::empty()
    } else if bytes.last() == 10 {
        complete_lines(bytes.drop_last()).push(unfinished(bytes.drop_last()))
    } else {
        complete_lines(bytes.drop_last())
    }
}

/// What follows the last line feed of a run of bytes: the line that has
/// not ended yet.
pub open spec fn unfinished(bytes: Seq<u8>) -> Seq<u8>
    decreases bytes.len(),
{
    if bytes.len() == 0 || bytes.last() == 10 {
        Seq::empty()
    } else {
        unfinished(bytes.drop_last()).push(bytes.last())
    }
}

/// Output may come in any pieces: the lines of two pieces in a row are the
/// lines of the first, then the lines of what the first left unfinished
/// followed by the second.
pub proof fn lemma_lines_in_pieces(a: Seq<u8>, b: Seq<u8>)
    ensures
        complete_lines(a + b) == complete_lines(a) + complete_lines(unfinished(a) + b),
        unfinished(a + b) == unfinished(unfinished(a) + b),
    decreases b.len(),
{
    if b.len() == 0 {
        assert(a + b =~= a);
        assert(unfinished(a) + b =~= unfinished(a));
        lemma_unfinished_has_no_lines(a);
        assert(complete_lines(a) + Seq::<Seq<u8>>::empty() =~= complete_lines(a));
    } else {
        let front = b.drop_last();
        lemma_lines_in_pieces(a, front);
        assert((a + b).drop_last() =~= a + front);
        assert((unfinished(a) + b).drop_last() =~= unfinished(a) + front);
        assert((a + b).last() == b.last());
        assert((unfinished(a) + b).last() == b.last());
        if b.last() == 10 {
            assert(complete_lines(a + b) =~= complete_lines(a) + complete_lines(
                unfinished(a) + b,
            ));
        }
    }
}

/// An unfinished line holds no line feed: it has no complete lines and is
/// all unfinished.
pub proof fn lemma_unfinished_has_no_lines(a: Seq<u8>)
    ensures
        complete_lines(unfinished(a)) == Seq::<Seq<u8>>::empty(),
        unfinished(unfinished(a)) == unfinished(a),
    decreases a.len(),
{
    if a.len() > 0 && a.last() != 10 {
        lemma_unfinished_has_no_lines(a.drop_last());
        let u = unfinished(a);
        assert(u.drop_last() =~= unfinished(a.drop_last()));
    }
}

/// The byte sequences of a list of vectors.
pub open spec fn byte_lines(lines: Seq<Vec<u8>>) -> Seq<Seq<u8>> {
    lines.map_values(|l: Vec<u8>| l@)
}

/// Cuts the output of a child into lines, whatever the pieces in which it
/// arrives. Its view is the line that has not ended yet.
pub struct LineBuffer {
    pending: Vec<u8>,
}

impl View for LineBuffer {
    type V = Seq<u8>;

    closed spec fn view(&self) -> Seq<u8> {
        self.pending@
    }
}

impl LineBuffer {
    /// A buffer without pending bytes.
    pub fn new() -> (b: Self)
        ensures
            b@ == Seq::<u8>::empty(),
    {
        Self { pending: Vec::new() }
    }

    /// Takes in a piece of output and hands out the lines that it
    /// completes, without their line feeds.
    pub fn feed(&mut self, chunk: &[u8]) -> (lines: Vec<Vec<u8>>)
        ensures
            byte_lines(lines@) == complete_lines(old(self)@ + chunk@),
            final(self)@ == unfinished(old(self)@ + chunk@),
    {
        let ghost start = self.pending@;
        let mut lines: Vec<Vec<u8>> = Vec::new();
        let mut i: usize = 0;
        proof {
            assert(start + chunk@.take(0) =~= start);
            // Only what follows the last line feed is pending.
            assert(byte_lines(lines@) =~= Seq::<Seq<u8>>::empty());
        }
        // The pending bytes hold no line feed of their own accord only if
        // they came from this buffer; a feed settles that either way.
        let mut current: Vec<u8> = Vec::new();
        let mut k: usize = 0;
        assert(start.take(0) =~= Seq::<u8>::empty());
        while k < self.pending.len()
            invariant
                k <= self.pending.len(),
                start == self.pending@,
                byte_lines(lines@) == complete_lines(start.take(k as int)),
                current@ == unfinished(start.take(k as int)),
            decreases self.pending.len() - k,
        {
            let ghost done = byte_lines(lines@);
            assert(start.take(k + 1).drop_last() =~= start.take(k as int));
            assert(start.take(k + 1).last() == start[k as int]);
            let b: u8 = self.pending[k];
            if b == 10 {
                let ghost line = current@;
                lines.push(current);
                current = Vec::new();
                assert(byte_lines(lines@) =~= done.push(line));
            } else {
                current.push(b);
            }
            k += 1;
        }
        assert(start.take(start.len() as int) =~= start);
        assert(start + chunk@.take(0) =~= start);
        while i < chunk.len()
            invariant
                i <= chunk.len(),
                byte_lines(lines@) == complete_lines(start + chunk@.take(i as int)),
                current@ == unfinished(start + chunk@.take(i as int)),
            decreases chunk.len() - i,
        {
            let ghost done = byte_lines(lines@);
            let ghost seen = start + chunk@.take(i + 1);
            assert(seen.drop_last() =~= start + chunk@.take(i as int));
            assert(seen.last() == chunk@[i as int]);
            let b: u8 = chunk[i];
            if b == 10 {
                let ghost line = current@;
                lines.push(current);
                current = Vec::new();
                assert(byte_lines(lines@) =~= done.push(line));
            } else {
                current.push(b);
            }
            i += 1;
        }
        assert(chunk@.take(chunk@.len() as int) =~= chunk@);
        self.pending = current;
        lines
    }

    /// Hands out the line that has not ended, when the output has: `None`
    /// where nothing is pending.
    pub fn finish(&mut self) -> (line: Option<Vec<u8>>)
        ensures
            final(self)@ == Seq::<u8>::empty(),
            match line {
                Some(l) => l@ == old(self)@ && l@.len() > 0,
                None => old(self)@.len() == 0,
            },
    {
        let mut pending: Vec<u8> = Vec::new();
        core::mem::swap(&mut pending, &mut self.pending);
        if pending.len() == 0 {
            None
        } else {
            Some(pending)
        }
    }
}

/// The log entry of a line of a child's output: the time it was read, the
/// stream it came from, the level `Info`, and the line as text, malformed
/// UTF-8 replaced.
pub fn tag_line(timestamp_ms: u64, stream: u8, line: &[u8]) -> (e: LogEntry)
    ensures
        e@ == (LogEntryView {
            timestamp_ms,
            level: 1,
            stream,
            message: lossy_text(line@),
        }),
{
    LogEntry { timestamp_ms, level: LEVEL_INFO, stream, message: utf8_lossy(line) }
}

/// The log entry that reports a failed spawn: on the error stream, at the
/// level `Error`.
pub fn spawn_failure_entry(timestamp_ms: u64, cause: &str) -> (e: LogEntry)
    ensures
        e@ == (LogEntryView {
            timestamp_ms,
            level: 3,
            stream: 1,
            message: "failed to spawn: "@ + cause@,
        }),
{
    let mut message = String::from_str("failed to spawn: ");
    message.append(cause);
    LogEntry { timestamp_ms, level: 3, stream: STDERR, message }
}

} // verus!
