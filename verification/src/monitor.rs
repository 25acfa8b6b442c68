//! The state of the monitoring dashboard and how keys and fresh data
//! change it. Drawing and input are left to the terminal.

use vstd::prelude::*;
use vstd::string::StringExecFns;

use crate::protocol::{status_name, views, LogEntry, LogEntryView, ProcessInfo, ProcessInfoView};
use crate::text::str_eq;

verus! {

/// The number of memory samples kept per process: two minutes at one
/// sample every two seconds.
pub const HISTORY_LEN: usize = 60;

/// A process as the dashboard shows it.
pub struct ProcessRow {
    pub id: u32,
    pub name: String,
    pub pid: u32,
    pub status: String,
    pub memory: u64,
    pub uptime: u64,
    pub restarts: u32,
}

/// The mathematical content of a [`ProcessRow`].
pub struct RowView {
    pub id: u32,
    pub name: Seq<char>,
    pub pid: u32,
    pub status: Seq<char>,
    pub memory: u64,
    pub uptime: u64,
    pub restarts: u32,
}

impl View for ProcessRow {
    type V = RowView;

    open spec fn view(&self) -> RowView {
        RowView {
            id: self.id,
            name: self.name@,
            pid: self.pid,
            status: self.status@,
            memory: self.memory,
            uptime: self.uptime,
            restarts: self.restarts,
        }
    }
}

/// The row of a process of the list.
pub open spec fn row_of(p: ProcessInfoView) -> RowView {
    RowView {
        id: p.id,
        name: p.name,
        pid: p.pid,
        status: status_name(p.status),
        memory: p.memory_bytes,
        uptime: p.uptime_ms,
        restarts: p.restart_count,
    }
}

/// The rows of a process list.
pub open spec fn rows_of(procs: Seq<ProcessInfoView>) -> Seq<RowView> {
    procs.map_values(|p: ProcessInfoView| row_of(p))
}

/// Makes the rows of a process list.
pub fn make_rows(procs: &[ProcessInfo]) -> (rows: Vec<ProcessRow>)
    ensures
        views(rows@) == rows_of(views(procs@)),
{
    let mut rows: Vec<ProcessRow> = Vec::new();
    let mut i: usize = 0;
    while i < procs.len()
        invariant
            i <= procs.len(),
            rows@.len() == i,
            forall|j: int| 0 <= j < i ==> (#[trigger] rows@[j])@ == row_of(procs@[j]@),
        decreases procs.len() - i,
    {
        let p = &procs[i];
        rows.push(
            ProcessRow {
                id: p.id,
                name: p.name.clone(),
                pid: p.pid,
                status: String::from_str(p.status_str()),
                memory: p.memory_bytes,
                uptime: p.uptime_ms,
                restarts: p.restart_count,
            },
        );
        i += 1;
    }
    assert(views(rows@) =~= rows_of(views(procs@)));
    rows
}

/// A log entry as a line of the dashboard: `[out] message`, `[err]` for
/// stream 1.
pub open spec fn log_line_text(e: LogEntryView) -> Seq<char> {
    (if e.stream == 1 {
        "[err] "@
    } else {
        "[out] "@
    }) + e.message
}

/// Formats a log entry as a line of the dashboard.
pub fn log_line(e: &LogEntry) -> (s: String)
    ensures
        s@ == log_line_text(e@),
{
    let mut out = if e.stream == 1 {
        String::from_str("[err] ")
    } else {
        String::from_str("[out] ")
    };
    out.append(e.message.as_str());
    out
}

/// The colours of the dashboard.
#[derive(Debug, Clone, Copy, PartialEq, Eq, Structural)]
pub enum Tint {
    Green,
    Red,
    Yellow,
    White,
}

/// The colour of a status: green for running, red for stopped and
/// errored, yellow for starting, white for any other.
pub open spec fn tint_of(status: Seq<char>) -> Tint {
    if status == "running"@ {
        Tint::Green
    } else if status == "stopped"@ || status == "errored"@ {
        Tint::Red
    } else if status == "starting"@ {
        Tint::Yellow
    } else {
        Tint::White
    }
}

/// Tells the colour of a status.
pub fn status_tint(status: &str) -> (t: Tint)
    ensures
        t == tint_of(status@),
{
    if str_eq(status, "running") {
        Tint::Green
    } else if str_eq(status, "stopped") || str_eq(status, "errored") {
        Tint::Red
    } else if str_eq(status, "starting") {
        Tint::Yellow
    } else {
        Tint::White
    }
}

/// The keys that the dashboard reacts to.
#[derive(Debug, Clone, Copy, PartialEq, Eq, Structural)]
pub enum Key {
    /// `q`, escape or control-c.
    Quit,
    Up,
    Down,
    /// `r`.
    Restart,
    /// `s`.
    Stop,
    /// `d`.
    Delete,
    /// `l`.
    Logs,
    Other,
}

/// What the dashboard asks of the daemon after a key.
#[derive(Debug, Clone, Copy, PartialEq, Eq, Structural)]
pub enum Action {
    Nothing,
    Restart(u32),
    Stop(u32),
    Delete(u32),
    /// Fetch the latest log entries of the process.
    FetchLogs(u32),
}

/// The memory samples of one process after one more sample: the oldest is
/// dropped once there are more than sixty.
pub open spec fn sampled(samples: Seq<u64>, kb: u64) -> Seq<u64> {
    if samples.len() + 1 > 60 {
        samples.push(kb).drop_first()
    } else {
        samples.push(kb)
    }
}

/// The histories brought to the number of processes: as they are where
/// the number is the same, else cut or filled up with empty histories.
pub open spec fn resized(history: Seq<Seq<u64>>, n: nat) -> Seq<Seq<u64>> {
    Seq::new(
        n,
        |i: int|
            if i < history.len() {
                history[i]
            } else {
                Seq::empty()
            },
    )
}

/// The histories after a refresh: one per process, each with the memory of
/// its process in KB as the newest sample.
pub open spec fn refreshed_history(history: Seq<Seq<u64>>, procs: Seq<ProcessInfoView>) -> Seq<
    Seq<u64>,
> {
    Seq::new(
        procs.len(),
        |i: int| sampled(resized(history, procs.len())[i], procs[i].memory_bytes / 1024),
    )
}

/// The selection after a refresh: the last row where it pointed past the
/// rows and there are rows, else as it was.
pub open spec fn refreshed_selection(selected: usize, rows: nat) -> usize {
    if selected >= rows && rows > 0 {
        (rows - 1) as usize
    } else {
        selected
    }
}

/// The state of the dashboard.
pub struct AppState {
    pub processes: Vec<ProcessRow>,
    pub selected: usize,
    pub logs: Vec<String>,
    pub should_quit: bool,
    pub mem_history: Vec<Vec<u64>>,
}

/// The samples of each history.
pub open spec fn histories(h: Seq<Vec<u64>>) -> Seq<Seq<u64>> {
    h.map_values(|v: Vec<u64>| v@)
}

/// The texts of a list of strings.
pub open spec fn line_texts(lines: Seq<String>) -> Seq<Seq<char>> {
    lines.map_values(|s: String| s@)
}

impl AppState {
    /// The id of the selected process, if the selection points at one.
    pub open spec fn selected_id(&self) -> Option<u32> {
        if self.selected < self.processes@.len() {
            Some(self.processes@[self.selected as int].id)
        } else {
            None
        }
    }

    /// The dashboard for a process list: the first row selected, no logs,
    /// no history.
    pub fn new(procs: &[ProcessInfo]) -> (s: Self)
        ensures
            views(s.processes@) == rows_of(views(procs@)),
            s.selected == 0,
            s.logs@.len() == 0,
            !s.should_quit,
            s.mem_history@.len() == 0,
    {
        Self {
            processes: make_rows(procs),
            selected: 0,
            logs: Vec::new(),
            should_quit: false,
            mem_history: Vec::new(),
        }
    }

    /// Reacts to a key. Quit sets the quit flag; up and down move the
    /// selection within the rows; the other keys ask for an action on the
    /// selected process, if there is one. Nothing else changes.
    pub fn on_key(&mut self, key: Key) -> (action: Action)
        ensures
            final(self).processes == old(self).processes,
            final(self).logs == old(self).logs,
            final(self).mem_history == old(self).mem_history,
            final(self).should_quit == (old(self).should_quit || key == Key::Quit),
            final(self).selected == match key {
                Key::Up => if old(self).selected > 0 {
                    (old(self).selected - 1) as usize
                } else {
                    old(self).selected
                },
                Key::Down => if old(self).selected + 1 < old(self).processes@.len() {
                    (old(self).selected + 1) as usize
                } else {
                    old(self).selected
                },
                _ => old(self).selected,
            },
            action == match (key, old(self).selected_id()) {
                (Key::Restart, Some(id)) => Action::Restart(id),
                (Key::Stop, Some(id)) => Action::Stop(id),
                (Key::Delete, Some(id)) => Action::Delete(id),
                (Key::Logs, Some(id)) => Action::FetchLogs(id),
                _ => Action::Nothing,
            },
    {
        let target: Option<u32> = if self.selected < self.processes.len() {
            Some(self.processes[self.selected].id)
        } else {
            None
        };
        match key {
            Key::Quit => {
                self.should_quit = true;
                Action::Nothing
            },
            Key::Up => {
                if self.selected > 0 {
                    self.selected = self.selected - 1;
                }
                Action::Nothing
            },
            Key::Down => {
                if self.selected < self.processes.len() && self.selected + 1
                    < self.processes.len() {
                    self.selected = self.selected + 1;
                }
                Action::Nothing
            },
            Key::Restart => match target {
                Some(id) => Action::Restart(id),
                None => Action::Nothing,
            },
            Key::Stop => match target {
                Some(id) => Action::Stop(id),
                None => Action::Nothing,
            },
            Key::Delete => match target {
                Some(id) => Action::Delete(id),
                None => Action::Nothing,
            },
            Key::Logs => match target {
                Some(id) => Action::FetchLogs(id),
                None => Action::Nothing,
            },
            Key::Other => Action::Nothing,
        }
    }

    /// Shows the given log entries in place of the current ones.
    pub fn set_logs(&mut self, entries: &[LogEntry])
        ensures
            line_texts(final(self).logs@) == views(entries@).map_values(
                |e: LogEntryView| log_line_text(e),
            ),
            final(self).processes == old(self).processes,
            final(self).selected == old(self).selected,
            final(self).should_quit == old(self).should_quit,
            final(self).mem_history == old(self).mem_history,
    {
        let mut lines: Vec<String> = Vec::new();
        let mut i: usize = 0;
        while i < entries.len()
            invariant
                i <= entries.len(),
                lines@.len() == i,
                forall|j: int| 0 <= j < i ==> (#[trigger] lines@[j])@ == log_line_text(entries@[j]@),
            decreases entries.len() - i,
        {
            lines.push(log_line(&entries[i]));
            i += 1;
        }
        assert(line_texts(lines@) =~= views(entries@).map_values(
            |e: LogEntryView| log_line_text(e),
        ));
        self.logs = lines;
    }

    /// Takes in a fresh process list: the rows are replaced, the selection
    /// is kept within them, and the memory of each process is recorded.
    pub fn refresh(&mut self, procs: &[ProcessInfo])
        ensures
            views(final(self).processes@) == rows_of(views(procs@)),
            final(self).selected == refreshed_selection(old(self).selected, procs@.len()),
            histories(final(self).mem_history@) == refreshed_history(
                histories(old(self).mem_history@),
                views(procs@),
            ),
            final(self).logs == old(self).logs,
            final(self).should_quit == old(self).should_quit,
    {
        self.processes = make_rows(procs);
        let n: usize = procs.len();
        if self.selected >= n && n > 0 {
            self.selected = n - 1;
        }
        let ghost before = histories(self.mem_history@);
        let mut history: Vec<Vec<u64>> = Vec::new();
        let mut i: usize = 0;
        while i < n
            invariant
                i <= n,
                n == procs@.len(),
                before == histories(self.mem_history@),
                history@.len() == i,
                forall|j: int|
                    0 <= j < i ==> (#[trigger] history@[j])@ == sampled(
                        resized(before, n as nat)[j],
                        procs@[j]@.memory_bytes / 1024,
                    ),
            decreases n - i,
        {
            let mut samples: Vec<u64> = Vec::new();
            if i < self.mem_history.len() {
                let old_samples = &self.mem_history[i];
                assert(before[i as int] == old_samples@);
                let mut k: usize = 0;
                while k < old_samples.len()
                    invariant
                        k <= old_samples.len(),
                        samples@ == old_samples@.take(k as int),
                    decreases old_samples.len() - k,
                {
                    samples.push(old_samples[k]);
                    k += 1;
                    assert(samples@ =~= old_samples@.take(k as int));
                }
                assert(old_samples@.take(old_samples@.len() as int) =~= old_samples@);
            }
            assert(samples@ == resized(before, n as nat)[i as int]);
            samples.push(procs[i].memory_bytes / 1024);
            if samples.len() > HISTORY_LEN {
                let _ = samples.remove(0);
            }
            assert(samples@ =~= sampled(
                resized(before, n as nat)[i as int],
                procs@[i as int]@.memory_bytes / 1024,
            ));
            history.push(samples);
            i += 1;
        }
        assert(histories(history@) =~= refreshed_history(before, views(procs@)));
        self.mem_history = history;
    }

    /// Where the visible log lines begin when `height` lines fit: the last
    /// `height` lines are shown.
    pub fn first_visible_log(&self, height: usize) -> (start: usize)
        ensures
            start == if self.logs@.len() > height {
                self.logs@.len() - height
            } else {
                0
            },
    {
        if self.logs.len() > height {
            self.logs.len() - height
        } else {
            0
        }
    }
}

/// The memory of all rows together, at most `u64::MAX`.
pub open spec fn total_memory_of(rows: Seq<RowView>) -> nat
    decreases rows.len(),
{
    if rows.len() == 0 {
        0
    } else {
        let sum = total_memory_of(rows.drop_last()) + rows.last().memory as nat;
        if sum > u64::MAX {
            u64::MAX as nat
        } else {
            sum
        }
    }
}

/// Adds up the memory of all rows.
pub fn total_memory(rows: &Vec<ProcessRow>) -> (total: u64)
    ensures
        total == total_memory_of(views(rows@)),
{
    let mut total: u64 = 0;
    let mut i: usize = 0;
    assert(views(rows@).take(0) =~= Seq::<RowView>::empty());
    while i < rows.len()
        invariant
            i <= rows.len(),
            total == total_memory_of(views(rows@).take(i as int)),
        decreases rows.len() - i,
    {
        assert(views(rows@).take(i + 1).drop_last() =~= views(rows@).take(i as int));
        assert(views(rows@).take(i + 1).last() == rows@[i as int]@);
        let m: u64 = rows[i].memory;
        total = if total > u64::MAX - m {
            u64::MAX
        } else {
            total + m
        };
        i += 1;
    }
    assert(views(rows@).take(rows@.len() as int) =~= views(rows@));
    total
}

} // verus!
