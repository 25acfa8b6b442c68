//! The Prometheus text exposition of the process list.

use vstd::prelude::*;
use vstd::string::StringExecFns;

use crate::protocol::{views, ProcessInfo, ProcessInfoView};
use crate::text::{chars_of, decimal, decimal_pad3, push_decimal, push_decimal_pad3};

verus! {

/// A character of a label value as it is written: backslash, double quote
/// and line feed are escaped with a backslash.
pub open spec fn escaped_char(c: char) -> Seq<char> {
    if c == '\\' {
        seq!['\\', '\\']
    } else if c == '"' {
        seq!['\\', '"']
    } else if c == '\n' {
        seq!['\\', 'n']
    } else {
        seq![c]
    }
}

/// A label value as it is written.
pub open spec fn escaped(s: Seq<char>) -> Seq<char>
    decreases s.len(),
{
    if s.len() == 0 {
        Seq::empty()
    } else {
        escaped(s.drop_last()) + escaped_char(s.last())
    }
}

/// Escapes a label value.
pub fn escape(s: &str) -> (out: String)
    ensures
        out@ == escaped(s@),
{
    let chars = chars_of(s);
    let mut out = String::new();
    let mut i: usize = 0;
    assert(chars@.take(0) =~= Seq::<char>::empty());
    while i < chars.len()
        invariant
            i <= chars.len(),
            out@ == escaped(chars@.take(i as int)),
        decreases chars.len() - i,
    {
        let c: char = chars[i];
        let ghost before = out@;
        assert(chars@.take(i + 1).drop_last() =~= chars@.take(i as int));
        assert(chars@.take(i + 1).last() == c);
        if c == '\\' {
            out.push('\\');
            out.push('\\');
        } else if c == '"' {
            out.push('\\');
            out.push('"');
        } else if c == '\n' {
            out.push('\\');
            out.push('n');
        } else {
            out.push(c);
        }
        assert(out@ =~= before + escaped_char(c));
        i += 1;
    }
    assert(chars@.take(chars.len() as int) =~= chars@);
    out
}

/// The two comment lines that introduce a metric.
pub open spec fn help_type_text(name: Seq<char>, help: Seq<char>, metric_type: Seq<char>) -> Seq<
    char,
> {
    "# HELP "@ + name + " "@ + help + "\n# TYPE "@ + name + " "@ + metric_type + "\n"@
}

/// Appends the two comment lines that introduce a metric.
pub fn write_help_type(out: &mut String, name: &str, help: &str, metric_type: &str)
    ensures
        final(out)@ == old(out)@ + help_type_text(name@, help@, metric_type@),
{
    out.append("# HELP ");
    out.append(name);
    out.append(" ");
    out.append(help);
    out.append("\n# TYPE ");
    out.append(name);
    out.append(" ");
    out.append(metric_type);
    out.append("\n");
    assert(out@ =~= old(out)@ + help_type_text(name@, help@, metric_type@));
}

/// The per-process metrics.
#[derive(Debug, Clone, Copy, PartialEq, Eq, Structural)]
pub enum Metric {
    CpuPercent,
    MemoryBytes,
    UptimeSeconds,
    RestartTotal,
    Status,
}

/// The status gauge of a status byte: 0 for stopped, 1 for running and for
/// starting, 2 for errored, 0 for anything else.
pub open spec fn status_gauge(status: u8) -> nat {
    if status == 1 || status == 3 {
        1
    } else if status == 2 {
        2
    } else {
        0
    }
}

/// Milliseconds as seconds with three decimals.
pub open spec fn seconds_text(ms: u64) -> Seq<char> {
    decimal((ms / 1000) as nat) + "."@ + decimal_pad3((ms % 1000) as nat)
}

impl Metric {
    /// The name of the metric.
    pub open spec fn name(self) -> Seq<char> {
        match self {
            Metric::CpuPercent => "velos_process_cpu_percent"@,
            Metric::MemoryBytes => "velos_process_memory_bytes"@,
            Metric::UptimeSeconds => "velos_process_uptime_seconds"@,
            Metric::RestartTotal => "velos_process_restart_total"@,
            Metric::Status => "velos_process_status"@,
        }
    }

    /// The help text of the metric.
    pub open spec fn help(self) -> Seq<char> {
        match self {
            Metric::CpuPercent => "CPU usage percentage"@,
            Metric::MemoryBytes => "Resident memory in bytes"@,
            Metric::UptimeSeconds => "Process uptime in seconds"@,
            Metric::RestartTotal => "Total restart count"@,
            Metric::Status => "Process status (0=stopped, 1=online, 2=errored)"@,
        }
    }

    /// The type of the metric.
    pub open spec fn kind(self) -> Seq<char> {
        match self {
            Metric::RestartTotal => "counter"@,
            _ => "gauge"@,
        }
    }

    /// The value of the metric for a process. The list endpoint reports no
    /// CPU usage, so that metric is always zero.
    pub open spec fn value(self, p: ProcessInfoView) -> Seq<char> {
        match self {
            Metric::CpuPercent => "0"@,
            Metric::MemoryBytes => decimal(p.memory_bytes as nat),
            Metric::UptimeSeconds => seconds_text(p.uptime_ms),
            Metric::RestartTotal => decimal(p.restart_count as nat),
            Metric::Status => decimal(status_gauge(p.status)),
        }
    }

    /// The sample line of the metric for a process, labelled with the
    /// process's name and id.
    pub open spec fn line(self, p: ProcessInfoView) -> Seq<char> {
        self.name() + "{name=\""@ + escaped(p.name) + "\",instance=\""@ + decimal(p.id as nat)
            + "\"} "@ + self.value(p) + "\n"@
    }

    /// The sample lines of the metric for a list of processes.
    pub open spec fn lines(self, procs: Seq<ProcessInfoView>) -> Seq<char>
        decreases procs.len(),
    {
        if procs.len() == 0 {
            Seq::empty()
        } else {
            self.lines(procs.drop_last()) + self.line(procs.last())
        }
    }

    /// The comment lines and the sample lines of the metric.
    pub open spec fn section(self, procs: Seq<ProcessInfoView>) -> Seq<char> {
        help_type_text(self.name(), self.help(), self.kind()) + self.lines(procs)
    }

    /// The name of the metric.
    pub fn name_str(self) -> (s: &'static str)
        ensures
            s@ == self.name(),
    {
        match self {
            Metric::CpuPercent => "velos_process_cpu_percent",
            Metric::MemoryBytes => "velos_process_memory_bytes",
            Metric::UptimeSeconds => "velos_process_uptime_seconds",
            Metric::RestartTotal => "velos_process_restart_total",
            Metric::Status => "velos_process_status",
        }
    }

    /// The help text of the metric.
    pub fn help_str(self) -> (s: &'static str)
        ensures
            s@ == self.help(),
    {
        match self {
            Metric::CpuPercent => "CPU usage percentage",
            Metric::MemoryBytes => "Resident memory in bytes",
            Metric::UptimeSeconds => "Process uptime in seconds",
            Metric::RestartTotal => "Total restart count",
            Metric::Status => "Process status (0=stopped, 1=online, 2=errored)",
        }
    }

    /// The type of the metric.
    pub fn kind_str(self) -> (s: &'static str)
        ensures
            s@ == self.kind(),
    {
        match self {
            Metric::RestartTotal => "counter",
            _ => "gauge",
        }
    }

    /// Appends the value of the metric for a process.
    fn push_value(self, out: &mut String, p: &ProcessInfo)
        ensures
            final(out)@ == old(out)@ + self.value(p@),
    {
        match self {
            Metric::CpuPercent => {
                out.append("0");
            },
            Metric::MemoryBytes => {
                push_decimal(out, p.memory_bytes);
            },
            Metric::UptimeSeconds => {
                push_decimal(out, p.uptime_ms / 1000);
                out.append(".");
                push_decimal_pad3(out, p.uptime_ms % 1000);
                assert(out@ =~= old(out)@ + seconds_text(p.uptime_ms));
            },
            Metric::RestartTotal => {
                push_decimal(out, p.restart_count as u64);
            },
            Metric::Status => {
                let gauge: u64 = match p.status {
                    1 => 1,
                    2 => 2,
                    3 => 1,
                    _ => 0,
                };
                push_decimal(out, gauge);
            },
        }
    }

    /// Appends the comment lines and the sample lines of the metric.
    fn push_section(self, out: &mut String, processes: &[ProcessInfo])
        ensures
            final(out)@ == old(out)@ + self.section(views(processes@)),
    {
        write_help_type(out, self.name_str(), self.help_str(), self.kind_str());
        let ghost head = out@;
        let ghost procs = views(processes@);
        let mut i: usize = 0;
        assert(procs.take(0) =~= Seq::<ProcessInfoView>::empty());
        assert(out@ =~= head + self.lines(procs.take(0)));
        while i < processes.len()
            invariant
                i <= processes.len(),
                procs == views(processes@),
                out@ == head + self.lines(procs.take(i as int)),
            decreases processes.len() - i,
        {
            let p = &processes[i];
            let ghost before = out@;
            assert(procs.take(i + 1).drop_last() =~= procs.take(i as int));
            assert(procs.take(i + 1).last() == p@);
            out.append(self.name_str());
            out.append("{name=\"");
            let name = escape(p.name.as_str());
            out.append(name.as_str());
            out.append("\",instance=\"");
            push_decimal(out, p.id as u64);
            out.append("\"} ");
            self.push_value(out, p);
            out.append("\n");
            assert(out@ =~= before + self.line(p@));
            i += 1;
        }
        assert(procs.take(procs.len() as int) =~= procs);
        assert(out@ =~= old(out)@ + self.section(procs));
    }
}

/// The comment lines and the sample line of the number of processes.
pub open spec fn total_section(count: nat) -> Seq<char> {
    help_type_text("velos_daemon_processes_total"@, "Number of managed processes"@, "gauge"@)
        + "velos_daemon_processes_total "@ + decimal(count) + "\n"@
}

/// The whole exposition: the sections of CPU, memory, uptime, restarts and
/// status, each with one sample per process, then the number of processes.
pub open spec fn metrics_text(procs: Seq<ProcessInfoView>) -> Seq<char> {
    Metric::CpuPercent.section(procs) + Metric::MemoryBytes.section(procs)
        + Metric::UptimeSeconds.section(procs) + Metric::RestartTotal.section(procs)
        + Metric::Status.section(procs) + total_section(procs.len())
}

/// Renders the process list in the Prometheus text format.
pub fn format_metrics(processes: &[ProcessInfo]) -> (out: String)
    ensures
        out@ == metrics_text(views(processes@)),
{
    let mut out = String::new();
    Metric::CpuPercent.push_section(&mut out, processes);
    Metric::MemoryBytes.push_section(&mut out, processes);
    Metric::UptimeSeconds.push_section(&mut out, processes);
    Metric::RestartTotal.push_section(&mut out, processes);
    Metric::Status.push_section(&mut out, processes);
    let ghost head = out@;
    write_help_type(
        &mut out,
        "velos_daemon_processes_total",
        "Number of managed processes",
        "gauge",
    );
    out.append("velos_daemon_processes_total ");
    push_decimal(&mut out, processes.len() as u64);
    out.append("\n");
    assert(out@ =~= head + total_section(views(processes@).len()));
    assert(out@ =~= metrics_text(views(processes@)));
    out
}

} // verus!
