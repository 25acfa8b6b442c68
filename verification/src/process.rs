//! The configuration and lifecycle status of a managed process.

use vstd::prelude::*;
use vstd::string::StringExecFns;

verus! {

/// How a process is launched and kept alive.
#[derive(Debug, Clone)]
pub struct ProcessConfig {
    pub name: String,
    pub script: String,
    pub cwd: Option<String>,
    pub interpreter: Option<String>,
    /// Time between the stop signal and the kill, in milliseconds.
    pub kill_timeout_ms: u32,
    /// Whether the process is started again after it exits on its own.
    pub autorestart: bool,
    /// The most restarts allowed; -1 for no limit.
    pub max_restarts: i32,
    /// How long a process must stay up to count as stable, in milliseconds.
    pub min_uptime_ms: u64,
    /// The pause before a restart, in milliseconds.
    pub restart_delay_ms: u32,
    /// Whether the pause doubles with every consecutive crash.
    pub exp_backoff_restart_delay: bool,
    /// The resident memory above which the process is restarted, in bytes.
    pub max_memory_restart: Option<u64>,
}

/// The kill timeout used when none is configured: five seconds.
pub fn default_kill_timeout() -> (v: u32)
    ensures
        v == 5000,
{
    5000
}

/// Processes are restarted unless configured otherwise.
pub fn default_autorestart() -> (v: bool)
    ensures
        v,
{
    true
}

/// The restart limit used when none is configured.
pub fn default_max_restarts() -> (v: i32)
    ensures
        v == 15,
{
    15
}

/// The stability threshold used when none is configured: one second.
pub fn default_min_uptime_ms() -> (v: u64)
    ensures
        v == 1000,
{
    1000
}

impl Default for ProcessConfig {
    fn default() -> (c: Self)
        ensures
            c.name@.len() == 0,
            c.script@.len() == 0,
            c.cwd is None,
            c.interpreter is None,
            c.kill_timeout_ms == 5000,
            c.autorestart,
            c.max_restarts == 15,
            c.min_uptime_ms == 1000,
            c.restart_delay_ms == 0,
            !c.exp_backoff_restart_delay,
            c.max_memory_restart is None,
    {
        Self {
            name: String::new(),
            script: String::new(),
            cwd: None,
            interpreter: None,
            kill_timeout_ms: default_kill_timeout(),
            autorestart: default_autorestart(),
            max_restarts: default_max_restarts(),
            min_uptime_ms: default_min_uptime_ms(),
            restart_delay_ms: 0,
            exp_backoff_restart_delay: false,
            max_memory_restart: None,
        }
    }
}

/// Where a process stands in its lifecycle.
#[derive(Debug, Clone, Copy, PartialEq, Eq, Structural)]
pub enum ProcessStatus {
    Starting,
    Online,
    Stopping,
    Stopped,
    Errored,
}

impl ProcessStatus {
    /// The lower-case name of the status.
    pub open spec fn name(self) -> Seq<char> {
        match self {
            ProcessStatus::Starting => "starting"@,
            ProcessStatus::Online => "online"@,
            ProcessStatus::Stopping => "stopping"@,
            ProcessStatus::Stopped => "stopped"@,
            ProcessStatus::Errored => "errored"@,
        }
    }

    /// True for the statuses in which a child process exists.
    pub open spec fn is_alive(self) -> bool {
        self == ProcessStatus::Starting || self == ProcessStatus::Online || self
            == ProcessStatus::Stopping
    }

    /// The byte that stands for the status in listings: 0 for stopped, 1
    /// for online and for stopping, whose child still runs, 2 for errored,
    /// 3 for starting.
    pub open spec fn code(self) -> u8 {
        match self {
            ProcessStatus::Stopped => 0,
            ProcessStatus::Online => 1,
            ProcessStatus::Stopping => 1,
            ProcessStatus::Errored => 2,
            ProcessStatus::Starting => 3,
        }
    }

    /// The byte that stands for the status in listings.
    pub fn to_code(self) -> (c: u8)
        ensures
            c == self.code(),
    {
        match self {
            ProcessStatus::Stopped => 0,
            ProcessStatus::Online => 1,
            ProcessStatus::Stopping => 1,
            ProcessStatus::Errored => 2,
            ProcessStatus::Starting => 3,
        }
    }

    /// The lower-case name of the status.
    pub fn as_str(&self) -> (s: &'static str)
        ensures
            s@ == self.name(),
    {
        match self {
            ProcessStatus::Starting => "starting",
            ProcessStatus::Online => "online",
            ProcessStatus::Stopping => "stopping",
            ProcessStatus::Stopped => "stopped",
            ProcessStatus::Errored => "errored",
        }
    }

    /// The lower-case name of the status, as an owned string.
    pub fn to_string(&self) -> (s: String)
        ensures
            s@ == self.name(),
    {
        String::from_str(self.as_str())
    }
}

} // verus!
