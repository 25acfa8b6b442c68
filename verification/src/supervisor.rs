//! The lifecycle of one managed process as a state machine: what the
//! supervisor does, and what becomes of the record, when an intent
//! arrives, the child is spawned or exits, a timer runs out or a memory
//! sample comes in. Spawning, signalling and waiting are left to the
//! caller, which performs the returned action and reports what happened.

use vstd::prelude::*;

use crate::process::ProcessStatus;
use crate::protocol::StartPayload;

verus! {

/// The signal that asks a process to terminate.
pub const SIGTERM: u8 = 15;

/// The signal that ends a process at once.
pub const SIGKILL: u8 = 9;

/// The longest pause between restarts under exponential backoff, in
/// milliseconds.
pub const MAX_BACKOFF_MS: u64 = 60000;

/// The part of a process's configuration that the lifecycle depends on.
#[derive(Debug, Clone, Copy, PartialEq, Eq, Structural)]
pub struct Policy {
    pub autorestart: bool,
    /// The most restarts allowed; negative for no limit.
    pub max_restarts: i32,
    pub min_uptime_ms: u64,
    pub restart_delay_ms: u32,
    pub exp_backoff: bool,
    /// The resident memory above which the process is restarted; 0 for no
    /// limit.
    pub max_memory_restart: u64,
    pub kill_timeout_ms: u32,
    pub wait_ready: bool,
    pub listen_timeout_ms: u32,
    pub shutdown_with_message: bool,
}

impl Policy {
    /// The policy that a start payload asks for.
    pub open spec fn of_payload(p: StartPayload) -> Policy {
        Policy {
            autorestart: p.autorestart,
            max_restarts: p.max_restarts,
            min_uptime_ms: p.min_uptime_ms,
            restart_delay_ms: p.restart_delay_ms,
            exp_backoff: p.exp_backoff,
            max_memory_restart: p.max_memory_restart,
            kill_timeout_ms: p.kill_timeout_ms,
            wait_ready: p.wait_ready,
            listen_timeout_ms: p.listen_timeout_ms,
            shutdown_with_message: p.shutdown_with_message,
        }
    }

    /// The policy that a start payload asks for.
    pub fn of(p: &StartPayload) -> (policy: Policy)
        ensures
            policy == Self::of_payload(*p),
    {
        Policy {
            autorestart: p.autorestart,
            max_restarts: p.max_restarts,
            min_uptime_ms: p.min_uptime_ms,
            restart_delay_ms: p.restart_delay_ms,
            exp_backoff: p.exp_backoff,
            max_memory_restart: p.max_memory_restart,
            kill_timeout_ms: p.kill_timeout_ms,
            wait_ready: p.wait_ready,
            listen_timeout_ms: p.listen_timeout_ms,
            shutdown_with_message: p.shutdown_with_message,
        }
    }
}

/// What follows once a stopping child has exited.
#[derive(Debug, Clone, Copy, PartialEq, Eq, Structural)]
pub enum AfterStop {
    /// The process stays stopped.
    Stay,
    /// The process is started again.
    Restart,
    /// The record is removed.
    Remove,
    /// The process counts as failed: it was stopped because it did not
    /// become ready.
    Fail,
}

/// What the supervisor has to do after a transition.
#[derive(Debug, Clone, Copy, PartialEq, Eq, Structural)]
pub enum Action {
    Nothing,
    /// Spawn the child and report the outcome with `Runtime::on_spawn`;
    /// `restart` tells whether this start counts as a restart.
    Spawn { restart: bool },
    /// Send the signal to the child.
    Signal(u8),
    /// Write the shutdown message on the child's standard input, then
    /// send SIGTERM.
    ShutdownMessage,
    /// Remove the record from the table.
    Remove,
}

/// The runtime state of a process record.
#[derive(Debug, Clone, Copy, PartialEq, Eq, Structural)]
pub struct Runtime {
    pub status: ProcessStatus,
    /// The id of the child; 0 while there is none.
    pub pid: u32,
    pub started_at: u64,
    pub last_restart_at: u64,
    pub restart_count: u32,
    pub consecutive_crashes: u32,
    pub memory_bytes_sampled: u64,
    /// Whether the child has stayed online for the minimum uptime.
    pub stable: bool,
    /// When a stopping child that has not exited is killed.
    pub kill_at: Option<u64>,
    /// When the process is started again after an exit.
    pub restart_at: Option<u64>,
    /// Until when a starting child may take to report that it is ready.
    pub ready_by: Option<u64>,
    /// What follows the exit of a stopping child.
    pub after_stop: AfterStop,
}

/// Two to the power of `n`.
pub open spec fn pow2(n: nat) -> nat
    decreases n,
{
    if n == 0 {
        1
    } else {
        2 * pow2((n - 1) as nat)
    }
}

/// The least of two numbers.
pub open spec fn min(a: nat, b: nat) -> nat {
    if a <= b {
        a
    } else {
        b
    }
}

/// The pause before the restart that follows the `crashes`-th consecutive
/// crash: the configured delay, doubled with every crash and capped at one
/// minute under exponential backoff.
pub open spec fn restart_delay_of(policy: Policy, crashes: nat) -> nat {
    if policy.exp_backoff {
        min(policy.restart_delay_ms as nat * pow2(crashes), 60000)
    } else {
        policy.restart_delay_ms as nat
    }
}

/// A time `delta` after `now`, at most `u64::MAX`.
pub open spec fn later(now: u64, delta: nat) -> u64 {
    if now + delta > u64::MAX {
        u64::MAX
    } else {
        (now + delta) as u64
    }
}

/// A counter after one more count, at most `u32::MAX`.
pub open spec fn counted_up(n: u32) -> u32 {
    if n == u32::MAX {
        n
    } else {
        (n + 1) as u32
    }
}

/// Whether a restart limit is reached.
pub open spec fn limit_reached(policy: Policy, restart_count: u32) -> bool {
    policy.max_restarts >= 0 && restart_count >= policy.max_restarts
}

/// Whether the child has been up for the minimum uptime at `now`.
pub open spec fn up_long_enough(policy: Policy, r: Runtime, now: u64) -> bool {
    now >= r.started_at && now - r.started_at >= policy.min_uptime_ms
}

impl Runtime {
    /// The state of a record that has just been created: stopped, never
    /// started.
    pub open spec fn fresh() -> Runtime {
        Runtime {
            status: ProcessStatus::Stopped,
            pid: 0,
            started_at: 0,
            last_restart_at: 0,
            restart_count: 0,
            consecutive_crashes: 0,
            memory_bytes_sampled: 0,
            stable: false,
            kill_at: None,
            restart_at: None,
            ready_by: None,
            after_stop: AfterStop::Stay,
        }
    }

    /// The invariant of the runtime state: there is a child exactly in the
    /// statuses `Starting`, `Online` and `Stopping`; timers are armed only
    /// in the status they belong to.
    pub open spec fn wf(self) -> bool {
        &&& (self.pid != 0) == self.status.is_alive()
        &&& (self.kill_at is Some ==> self.status == ProcessStatus::Stopping)
        &&& (self.ready_by is Some ==> self.status == ProcessStatus::Starting)
        &&& (self.restart_at is Some ==> !self.status.is_alive())
        &&& (self.after_stop != AfterStop::Stay ==> self.status == ProcessStatus::Stopping)
        &&& (self.stable ==> self.status == ProcessStatus::Online || self.status
            == ProcessStatus::Stopping)
    }

    // --------------------------------------------------------------
    // Transitions, as functions
    // --------------------------------------------------------------
    /// A start intent: a process without child is to be spawned; one with a
    /// child is left alone.
    pub open spec fn start_wanted(self) -> (Runtime, Action) {
        if self.status.is_alive() {
            (self, Action::Nothing)
        } else {
            (Runtime { restart_at: None, ..self }, Action::Spawn { restart: false })
        }
    }

    /// The outcome of a spawn at `now`; `pid` is the id of the child, or 0
    /// if there is none. With a child, the process is online, or starting
    /// until it reports ready where the policy waits for that. Without, it
    /// is errored and nothing is retried. A restart is counted either way.
    pub open spec fn spawned(self, policy: Policy, pid: u32, restart: bool, now: u64) -> Runtime {
        let count = if restart {
            counted_up(self.restart_count)
        } else {
            self.restart_count
        };
        let last = if restart {
            now
        } else {
            self.last_restart_at
        };
        if pid != 0 {
            Runtime {
                status: if policy.wait_ready {
                    ProcessStatus::Starting
                } else {
                    ProcessStatus::Online
                },
                pid,
                started_at: now,
                last_restart_at: last,
                restart_count: count,
                stable: false,
                kill_at: None,
                restart_at: None,
                ready_by: if policy.wait_ready {
                    Some(later(now, policy.listen_timeout_ms as nat))
                } else {
                    None
                },
                after_stop: AfterStop::Stay,
                ..self
            }
        } else {
            Runtime {
                status: ProcessStatus::Errored,
                pid: 0,
                last_restart_at: last,
                restart_count: count,
                stable: false,
                kill_at: None,
                restart_at: None,
                ready_by: None,
                after_stop: AfterStop::Stay,
                ..self
            }
        }
    }

    /// The readiness sentinel was seen: a starting process is online.
    pub open spec fn made_ready(self) -> Runtime {
        if self.status == ProcessStatus::Starting {
            Runtime { status: ProcessStatus::Online, ready_by: None, ..self }
        } else {
            self
        }
    }

    /// A stop with the given signal and timeout, and what is to follow it.
    /// A process with a child is stopping: it gets the shutdown message
    /// where the policy asks for one, else the signal, and is killed when
    /// the timeout runs out. A process without child only loses its
    /// pending restart.
    pub open spec fn stopping(
        self,
        policy: Policy,
        signal: u8,
        timeout_ms: u32,
        after_stop: AfterStop,
        now: u64,
    ) -> (Runtime, Action) {
        if self.status.is_alive() {
            (
                Runtime {
                    status: ProcessStatus::Stopping,
                    kill_at: Some(later(now, timeout_ms as nat)),
                    ready_by: None,
                    after_stop,
                    ..self
                },
                if policy.shutdown_with_message {
                    Action::ShutdownMessage
                } else {
                    Action::Signal(signal)
                },
            )
        } else {
            (Runtime { restart_at: None, ..self }, Action::Nothing)
        }
    }

    /// A stop intent.
    pub open spec fn stop_wanted(self, policy: Policy, signal: u8, timeout_ms: u32, now: u64) -> (
        Runtime,
        Action,
    ) {
        self.stopping(policy, signal, timeout_ms, AfterStop::Stay, now)
    }

    /// A restart intent: a process with a child is stopped and started
    /// again once the child has exited; one without is spawned at once.
    pub open spec fn restart_wanted(self, policy: Policy, now: u64) -> (Runtime, Action) {
        if self.status.is_alive() {
            self.stopping(policy, SIGTERM, policy.kill_timeout_ms, AfterStop::Restart, now)
        } else {
            (Runtime { restart_at: None, ..self }, Action::Spawn { restart: true })
        }
    }

    /// A delete intent: a process with a child is stopped and removed once
    /// the child has exited; one without is removed at once.
    pub open spec fn delete_wanted(self, policy: Policy, now: u64) -> (Runtime, Action) {
        if self.status.is_alive() {
            self.stopping(policy, SIGTERM, policy.kill_timeout_ms, AfterStop::Remove, now)
        } else {
            (Runtime { restart_at: None, ..self }, Action::Remove)
        }
    }

    /// The consecutive crashes counted at an exit at `now`: one more than
    /// before, or one if the child had been up for the minimum uptime.
    pub open spec fn crashes_at_exit(self, policy: Policy, now: u64) -> u32 {
        if self.stable || (self.status == ProcessStatus::Online && up_long_enough(
            policy,
            self,
            now,
        )) {
            1
        } else {
            counted_up(self.consecutive_crashes)
        }
    }

    /// The child has exited with `exit_code` at `now`.
    ///
    /// Of a stopping process it was asked: the process is stopped, and
    /// then started again or removed if that was the purpose of the stop;
    /// it is errored if it was stopped for not becoming ready.
    ///
    /// Any other exit is a crash. Without autorestart the process is
    /// stopped if the exit code is zero, else errored. With autorestart it
    /// is errored once the restart limit is reached; else a restart is due
    /// after the restart delay.
    pub open spec fn exited(self, policy: Policy, exit_code: i32, now: u64) -> (Runtime, Action) {
        let ended = if exit_code == 0 {
            ProcessStatus::Stopped
        } else {
            ProcessStatus::Errored
        };
        let gone = Runtime {
            pid: 0,
            stable: false,
            kill_at: None,
            restart_at: None,
            ready_by: None,
            after_stop: AfterStop::Stay,
            ..self
        };
        if !self.status.is_alive() {
            (self, Action::Nothing)
        } else if self.status == ProcessStatus::Stopping {
            match self.after_stop {
                AfterStop::Stay => (
                    Runtime { status: ProcessStatus::Stopped, ..gone },
                    Action::Nothing,
                ),
                AfterStop::Restart => (
                    Runtime { status: ProcessStatus::Stopped, ..gone },
                    Action::Spawn { restart: true },
                ),
                AfterStop::Remove => (
                    Runtime { status: ProcessStatus::Stopped, ..gone },
                    Action::Remove,
                ),
                AfterStop::Fail => (
                    Runtime { status: ProcessStatus::Errored, ..gone },
                    Action::Nothing,
                ),
            }
        } else {
            let crashes = self.crashes_at_exit(policy, now);
            if !policy.autorestart {
                (
                    Runtime { status: ended, consecutive_crashes: crashes, ..gone },
                    Action::Nothing,
                )
            } else if limit_reached(policy, self.restart_count) {
                (
                    Runtime {
                        status: ProcessStatus::Errored,
                        consecutive_crashes: crashes,
                        ..gone
                    },
                    Action::Nothing,
                )
            } else {
                (
                    Runtime {
                        status: ended,
                        consecutive_crashes: crashes,
                        restart_at: Some(later(now, restart_delay_of(policy, crashes as nat))),
                        ..gone
                    },
                    Action::Nothing,
                )
            }
        }
    }

    /// The clock has reached `now`.
    ///
    /// A stopping child whose timeout has run out is killed. A process
    /// whose restart is due is spawned. A starting child that has not
    /// reported ready in time is stopped as failed where the policy sends
    /// a shutdown message, else taken to be online. An online child that
    /// has been up for the minimum uptime is stable, and its crashes are
    /// forgotten.
    pub open spec fn ticked(self, policy: Policy, now: u64) -> (Runtime, Action) {
        if self.status == ProcessStatus::Stopping && self.kill_at is Some && now
            >= self.kill_at->0 {
            (Runtime { kill_at: None, ..self }, Action::Signal(SIGKILL))
        } else if !self.status.is_alive() && self.restart_at is Some && now >= self.restart_at->0 {
            (Runtime { restart_at: None, ..self }, Action::Spawn { restart: true })
        } else if self.status == ProcessStatus::Starting && self.ready_by is Some && now
            >= self.ready_by->0 {
            if policy.shutdown_with_message {
                self.stopping(policy, SIGTERM, policy.kill_timeout_ms, AfterStop::Fail, now)
            } else {
                (Runtime { status: ProcessStatus::Online, ready_by: None, ..self }, Action::Nothing)
            }
        } else if self.status == ProcessStatus::Online && !self.stable && up_long_enough(
            policy,
            self,
            now,
        ) {
            (Runtime { stable: true, consecutive_crashes: 0, ..self }, Action::Nothing)
        } else {
            (self, Action::Nothing)
        }
    }

    /// A memory sample of `rss` bytes: it is recorded, and an online
    /// process above its memory limit is restarted as on a restart intent.
    pub open spec fn sampled(self, policy: Policy, rss: u64, now: u64) -> (Runtime, Action) {
        let noted = Runtime { memory_bytes_sampled: rss, ..self };
        if self.status == ProcessStatus::Online && policy.max_memory_restart > 0 && rss
            > policy.max_memory_restart {
            noted.restart_wanted(policy, now)
        } else {
            (noted, Action::Nothing)
        }
    }
}

// ------------------------------------------------------------------
// The transitions, executable
// ------------------------------------------------------------------
/// Doubling and capping a capped delay is capping the doubled delay.
proof fn lemma_backoff_step(base: nat, i: nat)
    ensures
        min(2 * min(base * pow2(i), 60000), 60000) == min(base * pow2(i + 1), 60000),
{
    assert(base * pow2(i + 1) == 2 * (base * pow2(i))) by (nonlinear_arith)
        requires
            pow2(i + 1) == 2 * pow2(i),
    ;
}

/// Computes the pause before the restart that follows the `crashes`-th
/// consecutive crash.
pub fn restart_delay(policy: &Policy, crashes: u32) -> (delay: u64)
    ensures
        delay == restart_delay_of(*policy, crashes as nat),
        !policy.exp_backoff ==> delay == policy.restart_delay_ms,
        policy.exp_backoff ==> delay <= 60000,
{
    let base: u64 = policy.restart_delay_ms as u64;
    if !policy.exp_backoff {
        return base;
    }
    let mut delay: u64 = if base < MAX_BACKOFF_MS {
        base
    } else {
        MAX_BACKOFF_MS
    };
    let mut i: u32 = 0;
    assert(base * pow2(0) == base) by (nonlinear_arith)
        requires
            pow2(0) == 1,
    ;
    while i < crashes
        invariant
            i <= crashes,
            base == policy.restart_delay_ms,
            delay == min(base as nat * pow2(i as nat), 60000),
        decreases crashes - i,
    {
        proof {
            lemma_backoff_step(base as nat, i as nat);
        }
        delay = if delay * 2 < MAX_BACKOFF_MS {
            delay * 2
        } else {
            MAX_BACKOFF_MS
        };
        i += 1;
    }
    delay
}

/// A time `delta` after `now`, at most `u64::MAX`.
fn add_time(now: u64, delta: u64) -> (t: u64)
    ensures
        t == later(now, delta as nat),
{
    if now > u64::MAX - delta {
        u64::MAX
    } else {
        now + delta
    }
}

/// A counter after one more count.
fn count_up(n: u32) -> (m: u32)
    ensures
        m == counted_up(n),
{
    if n == u32::MAX {
        n
    } else {
        n + 1
    }
}

impl Runtime {
    /// The state of a record that has just been created.
    pub fn new() -> (r: Runtime)
        ensures
            r == Runtime::fresh(),
            r.wf(),
    {
        Runtime {
            status: ProcessStatus::Stopped,
            pid: 0,
            started_at: 0,
            last_restart_at: 0,
            restart_count: 0,
            consecutive_crashes: 0,
            memory_bytes_sampled: 0,
            stable: false,
            kill_at: None,
            restart_at: None,
            ready_by: None,
            after_stop: AfterStop::Stay,
        }
    }

    /// Tells whether the process has a child.
    pub fn is_alive(&self) -> (alive: bool)
        ensures
            alive == self.status.is_alive(),
    {
        match self.status {
            ProcessStatus::Starting => true,
            ProcessStatus::Online => true,
            ProcessStatus::Stopping => true,
            _ => false,
        }
    }

    /// Handles a start intent.
    pub fn on_start(self) -> (r: (Runtime, Action))
        requires
            self.wf(),
        ensures
            r == self.start_wanted(),
            r.0.wf(),
            r.0.restart_count == self.restart_count,
    {
        if self.is_alive() {
            (self, Action::Nothing)
        } else {
            (Runtime { restart_at: None, ..self }, Action::Spawn { restart: false })
        }
    }

    /// Takes in the outcome of a spawn: the id of the child, or 0 if the
    /// spawn failed.
    pub fn on_spawn(self, policy: &Policy, pid: u32, restart: bool, now: u64) -> (r: Runtime)
        requires
            self.wf(),
            !self.status.is_alive(),
        ensures
            r == self.spawned(*policy, pid, restart, now),
            r.wf(),
            r.restart_count >= self.restart_count,
            r.consecutive_crashes == self.consecutive_crashes,
    {
        let count: u32 = if restart {
            count_up(self.restart_count)
        } else {
            self.restart_count
        };
        let last: u64 = if restart {
            now
        } else {
            self.last_restart_at
        };
        if pid != 0 {
            Runtime {
                status: if policy.wait_ready {
                    ProcessStatus::Starting
                } else {
                    ProcessStatus::Online
                },
                pid,
                started_at: now,
                last_restart_at: last,
                restart_count: count,
                stable: false,
                kill_at: None,
                restart_at: None,
                ready_by: if policy.wait_ready {
                    Some(add_time(now, policy.listen_timeout_ms as u64))
                } else {
                    None
                },
                after_stop: AfterStop::Stay,
                ..self
            }
        } else {
            Runtime {
                status: ProcessStatus::Errored,
                pid: 0,
                last_restart_at: last,
                restart_count: count,
                stable: false,
                kill_at: None,
                restart_at: None,
                ready_by: None,
                after_stop: AfterStop::Stay,
                ..self
            }
        }
    }

    /// Takes in the readiness sentinel.
    pub fn on_ready(self) -> (r: Runtime)
        requires
            self.wf(),
        ensures
            r == self.made_ready(),
            r.wf(),
            r.restart_count == self.restart_count,
    {
        match self.status {
            ProcessStatus::Starting => Runtime {
                status: ProcessStatus::Online,
                ready_by: None,
                ..self
            },
            _ => self,
        }
    }

    /// Stops a process for a purpose.
    fn stop_for(
        self,
        policy: &Policy,
        signal: u8,
        timeout_ms: u32,
        after_stop: AfterStop,
        now: u64,
    ) -> (r:
        (Runtime, Action))
        requires
            self.wf(),
        ensures
            r == self.stopping(*policy, signal, timeout_ms, after_stop, now),
            r.0.wf(),
            r.0.restart_count == self.restart_count,
            r.0.consecutive_crashes == self.consecutive_crashes,
    {
        if self.is_alive() {
            (
                Runtime {
                    status: ProcessStatus::Stopping,
                    kill_at: Some(add_time(now, timeout_ms as u64)),
                    ready_by: None,
                    after_stop,
                    ..self
                },
                if policy.shutdown_with_message {
                    Action::ShutdownMessage
                } else {
                    Action::Signal(signal)
                },
            )
        } else {
            (Runtime { restart_at: None, ..self }, Action::Nothing)
        }
    }

    /// Handles a stop intent with the given signal and timeout.
    pub fn on_stop(self, policy: &Policy, signal: u8, timeout_ms: u32, now: u64) -> (r: (
        Runtime,
        Action,
    ))
        requires
            self.wf(),
        ensures
            r == self.stop_wanted(*policy, signal, timeout_ms, now),
            r.0.wf(),
            r.0.restart_count == self.restart_count,
    {
        self.stop_for(policy, signal, timeout_ms, AfterStop::Stay, now)
    }

    /// Handles a restart intent.
    pub fn on_restart(self, policy: &Policy, now: u64) -> (r: (Runtime, Action))
        requires
            self.wf(),
        ensures
            r == self.restart_wanted(*policy, now),
            r.0.wf(),
            r.0.restart_count == self.restart_count,
            r.0.consecutive_crashes == self.consecutive_crashes,
    {
        if self.is_alive() {
            self.stop_for(policy, SIGTERM, policy.kill_timeout_ms, AfterStop::Restart, now)
        } else {
            (Runtime { restart_at: None, ..self }, Action::Spawn { restart: true })
        }
    }

    /// Handles a delete intent.
    pub fn on_delete(self, policy: &Policy, now: u64) -> (r: (Runtime, Action))
        requires
            self.wf(),
        ensures
            r == self.delete_wanted(*policy, now),
            r.0.wf(),
            r.0.restart_count == self.restart_count,
    {
        if self.is_alive() {
            self.stop_for(policy, SIGTERM, policy.kill_timeout_ms, AfterStop::Remove, now)
        } else {
            (Runtime { restart_at: None, ..self }, Action::Remove)
        }
    }

    /// Takes in the exit of the child.
    pub fn on_exit(self, policy: &Policy, exit_code: i32, now: u64) -> (r: (Runtime, Action))
        requires
            self.wf(),
        ensures
            r == self.exited(*policy, exit_code, now),
            r.0.wf(),
            r.0.restart_count == self.restart_count,
            self.status.is_alive() ==> r.0.pid == 0,
    {
        let ended = if exit_code == 0 {
            ProcessStatus::Stopped
        } else {
            ProcessStatus::Errored
        };
        let gone = Runtime {
            pid: 0,
            stable: false,
            kill_at: None,
            restart_at: None,
            ready_by: None,
            after_stop: AfterStop::Stay,
            ..self
        };
        match self.status {
            ProcessStatus::Stopped => (self, Action::Nothing),
            ProcessStatus::Errored => (self, Action::Nothing),
            ProcessStatus::Stopping => match self.after_stop {
                AfterStop::Stay => (
                    Runtime { status: ProcessStatus::Stopped, ..gone },
                    Action::Nothing,
                ),
                AfterStop::Restart => (
                    Runtime { status: ProcessStatus::Stopped, ..gone },
                    Action::Spawn { restart: true },
                ),
                AfterStop::Remove => (
                    Runtime { status: ProcessStatus::Stopped, ..gone },
                    Action::Remove,
                ),
                AfterStop::Fail => (
                    Runtime { status: ProcessStatus::Errored, ..gone },
                    Action::Nothing,
                ),
            },
            _ => {
                let online: bool = match self.status {
                    ProcessStatus::Online => true,
                    _ => false,
                };
                let long_enough: bool = now >= self.started_at && now - self.started_at
                    >= policy.min_uptime_ms;
                let crashes: u32 = if self.stable || (online && long_enough) {
                    1
                } else {
                    count_up(self.consecutive_crashes)
                };
                if !policy.autorestart {
                    (
                        Runtime { status: ended, consecutive_crashes: crashes, ..gone },
                        Action::Nothing,
                    )
                } else if policy.max_restarts >= 0 && self.restart_count as i64
                    >= policy.max_restarts as i64 {
                    (
                        Runtime {
                            status: ProcessStatus::Errored,
                            consecutive_crashes: crashes,
                            ..gone
                        },
                        Action::Nothing,
                    )
                } else {
                    let delay: u64 = restart_delay(policy, crashes);
                    (
                        Runtime {
                            status: ended,
                            consecutive_crashes: crashes,
                            restart_at: Some(add_time(now, delay)),
                            ..gone
                        },
                        Action::Nothing,
                    )
                }
            },
        }
    }

    /// Takes in the time.
    pub fn on_tick(self, policy: &Policy, now: u64) -> (r: (Runtime, Action))
        requires
            self.wf(),
        ensures
            r == self.ticked(*policy, now),
            r.0.wf(),
            r.0.restart_count == self.restart_count,
    {
        let alive: bool = self.is_alive();
        match (self.status, self.kill_at, self.restart_at, self.ready_by) {
            (ProcessStatus::Stopping, Some(at), _, _) => {
                if now >= at {
                    return (Runtime { kill_at: None, ..self }, Action::Signal(SIGKILL));
                }
            },
            (ProcessStatus::Starting, _, _, Some(by)) => {
                if now >= by {
                    if policy.shutdown_with_message {
                        return self.stop_for(
                            policy,
                            SIGTERM,
                            policy.kill_timeout_ms,
                            AfterStop::Fail,
                            now,
                        );
                    } else {
                        return (
                            Runtime { status: ProcessStatus::Online, ready_by: None, ..self },
                            Action::Nothing,
                        );
                    }
                }
            },
            (ProcessStatus::Online, _, _, _) => {
                if !self.stable && now >= self.started_at && now - self.started_at
                    >= policy.min_uptime_ms {
                    return (
                        Runtime { stable: true, consecutive_crashes: 0, ..self },
                        Action::Nothing,
                    );
                }
            },
            (_, _, Some(at), _) => {
                if !alive && now >= at {
                    return (Runtime { restart_at: None, ..self }, Action::Spawn { restart: true });
                }
            },
            _ => {},
        }
        (self, Action::Nothing)
    }

    /// Takes in a memory sample.
    pub fn on_memory_sample(self, policy: &Policy, rss: u64, now: u64) -> (r: (Runtime, Action))
        requires
            self.wf(),
        ensures
            r == self.sampled(*policy, rss, now),
            r.0.wf(),
            r.0.restart_count == self.restart_count,
            r.0.consecutive_crashes == self.consecutive_crashes,
            r.0.memory_bytes_sampled == rss,
    {
        let noted = Runtime { memory_bytes_sampled: rss, ..self };
        let online: bool = match self.status {
            ProcessStatus::Online => true,
            _ => false,
        };
        if online && policy.max_memory_restart > 0 && rss > policy.max_memory_restart {
            noted.on_restart(policy, now)
        } else {
            (noted, Action::Nothing)
        }
    }
}

// ------------------------------------------------------------------
// What holds of the lifecycle
// ------------------------------------------------------------------
/// Backoff: the restart delay is the configured delay without exponential
/// backoff; with it, the delay doubles with every consecutive crash until
/// it reaches one minute, where it stays.
pub proof fn lemma_backoff_doubles(policy: Policy, crashes: nat)
    requires
        policy.exp_backoff,
    ensures
        restart_delay_of(policy, crashes) <= 60000,
        restart_delay_of(policy, crashes) <= restart_delay_of(policy, crashes + 1),
        restart_delay_of(policy, crashes + 1) == min(2 * restart_delay_of(policy, crashes), 60000),
{
    lemma_backoff_step(policy.restart_delay_ms as nat, crashes);
}

/// Crash-loop arming: when a child crashes before it has been up for the
/// minimum uptime, and restarts are on and not used up, the crash is
/// counted and the restart is due after the delay for that count: with
/// exponential backoff the configured delay times two to the power of the
/// count, at most one minute; without, the configured delay.
pub proof fn lemma_crash_arms_restart(policy: Policy, r: Runtime, exit_code: i32, now: u64)
    requires
        r.wf(),
        r.status == ProcessStatus::Online || r.status == ProcessStatus::Starting,
        !r.stable,
        !up_long_enough(policy, r, now),
        policy.autorestart,
        !limit_reached(policy, r.restart_count),
        r.consecutive_crashes < u32::MAX,
    ensures
        ({
            let after = r.exited(policy, exit_code, now).0;
            let k = (r.consecutive_crashes + 1) as nat;
            &&& after.consecutive_crashes == k
            &&& after.restart_at == Some(
                later(
                    now,
                    if policy.exp_backoff {
                        min(policy.restart_delay_ms as nat * pow2(k), 60000)
                    } else {
                        policy.restart_delay_ms as nat
                    },
                ),
            )
            &&& r.exited(policy, exit_code, now).1 == Action::Nothing
            &&& after.ticked(policy, after.restart_at->0).1 == (Action::Spawn { restart: true })
        }),
{
}

/// The crash count survives the restart: a spawn changes nothing of it.
pub proof fn lemma_spawn_keeps_crashes(
    policy: Policy,
    r: Runtime,
    pid: u32,
    restart: bool,
    now: u64,
)
    ensures
        r.spawned(policy, pid, restart, now).consecutive_crashes == r.consecutive_crashes,
        r.spawned(policy, pid, restart, now).restart_count >= r.restart_count,
        restart && r.restart_count < u32::MAX ==> r.spawned(policy, pid, restart, now).restart_count
            == r.restart_count + 1,
{
}

/// Stability reset: once an online child has been up for the minimum
/// uptime, its crashes are forgotten, and the crash that follows counts as
/// the first.
pub proof fn lemma_stability_reset(
    policy: Policy,
    r: Runtime,
    tick_at: u64,
    exit_code: i32,
    exit_at: u64,
)
    requires
        r.wf(),
        r.status == ProcessStatus::Online,
        up_long_enough(policy, r, tick_at),
    ensures
        ({
            let settled = r.ticked(policy, tick_at).0;
            &&& settled.status == ProcessStatus::Online
            &&& settled.stable
            &&& !r.stable ==> settled.consecutive_crashes == 0
            &&& settled.exited(policy, exit_code, exit_at).0.consecutive_crashes == 1
        }),
{
}

/// A crash after the minimum uptime counts as the first even if no tick
/// fell in between.
pub proof fn lemma_late_crash_counts_once(policy: Policy, r: Runtime, exit_code: i32, now: u64)
    requires
        r.wf(),
        r.status == ProcessStatus::Online,
        up_long_enough(policy, r, now),
    ensures
        r.exited(policy, exit_code, now).0.consecutive_crashes == 1,
{
}

/// Signal escalation: a stop at `t0` with a timeout arms the kill for
/// `t0 + timeout`. Until then a tick sends no signal; from then on, if the
/// child has not exited, a tick sends SIGKILL, once. Whenever the child
/// exits, the process is stopped.
pub proof fn lemma_kill_after_timeout(
    policy: Policy,
    r: Runtime,
    signal: u8,
    timeout_ms: u32,
    t0: u64,
    now: u64,
    exit_code: i32,
)
    requires
        r.wf(),
        r.status.is_alive(),
        t0 + timeout_ms <= u64::MAX,
        now >= t0,
    ensures
        ({
            let (stopping, first) = r.stop_wanted(policy, signal, timeout_ms, t0);
            let (ticked, second) = stopping.ticked(policy, now);
            &&& stopping.status == ProcessStatus::Stopping
            &&& first == if policy.shutdown_with_message {
                Action::ShutdownMessage
            } else {
                Action::Signal(signal)
            }
            &&& now < t0 + timeout_ms ==> second == Action::Nothing && ticked == stopping
            &&& now >= t0 + timeout_ms ==> second == Action::Signal(SIGKILL)
            &&& now >= t0 + timeout_ms ==> ticked.ticked(policy, now).1 == Action::Nothing
            &&& stopping.exited(policy, exit_code, now).0.status == ProcessStatus::Stopped
            &&& ticked.exited(policy, exit_code, now).0.status == ProcessStatus::Stopped
            &&& stopping.exited(policy, exit_code, now).0.ticked(policy, now).1 == Action::Nothing
        }),
{
}

/// The restart limit: once a process has been restarted as often as its
/// policy allows, a crash leaves it errored, with no restart due, and no
/// tick spawns it again.
pub proof fn lemma_crash_loop_capped(
    policy: Policy,
    r: Runtime,
    exit_code: i32,
    now: u64,
    later_on: u64,
)
    requires
        r.wf(),
        r.status == ProcessStatus::Online || r.status == ProcessStatus::Starting,
        policy.autorestart,
        limit_reached(policy, r.restart_count),
    ensures
        ({
            let (after, action) = r.exited(policy, exit_code, now);
            &&& after.status == ProcessStatus::Errored
            &&& after.pid == 0
            &&& after.restart_count == r.restart_count
            &&& after.restart_at is None
            &&& action == Action::Nothing
            &&& after.ticked(policy, later_on) == (after, Action::Nothing)
        }),
{
}

/// Without autorestart an exit is final: the process is stopped after exit
/// code zero and errored after any other, and is not restarted.
pub proof fn lemma_exit_without_autorestart(policy: Policy, r: Runtime, exit_code: i32, now: u64)
    requires
        r.wf(),
        r.status == ProcessStatus::Online || r.status == ProcessStatus::Starting,
        !policy.autorestart,
    ensures
        ({
            let (after, action) = r.exited(policy, exit_code, now);
            &&& after.status == if exit_code == 0 {
                ProcessStatus::Stopped
            } else {
                ProcessStatus::Errored
            }
            &&& after.restart_at is None
            &&& action == Action::Nothing
        }),
{
}

/// Memory restart: an online process sampled above its memory limit is
/// stopped to be started again; when its child has exited it is spawned as
/// a restart, which is counted, while its crashes are not.
pub proof fn lemma_memory_restart(
    policy: Policy,
    r: Runtime,
    rss: u64,
    now: u64,
    exit_code: i32,
    pid: u32,
)
    requires
        r.wf(),
        r.status == ProcessStatus::Online,
        policy.max_memory_restart > 0,
        rss > policy.max_memory_restart,
        r.restart_count < u32::MAX,
    ensures
        ({
            let (stopping, first) = r.sampled(policy, rss, now);
            let (stopped, second) = stopping.exited(policy, exit_code, now);
            let again = stopped.spawned(policy, pid, true, now);
            &&& stopping.status == ProcessStatus::Stopping
            &&& first == if policy.shutdown_with_message {
                Action::ShutdownMessage
            } else {
                Action::Signal(SIGTERM)
            }
            &&& second == Action::Spawn { restart: true }
            &&& again.restart_count == r.restart_count + 1
            &&& again.consecutive_crashes == r.consecutive_crashes
        }),
{
}

/// A sample at or below the limit, or without a limit, restarts nothing.
pub proof fn lemma_memory_within_limit(policy: Policy, r: Runtime, rss: u64, now: u64)
    requires
        policy.max_memory_restart == 0 || rss <= policy.max_memory_restart,
    ensures
        r.sampled(policy, rss, now) == (
            Runtime { memory_bytes_sampled: rss, ..r },
            Action::Nothing,
        ),
{
}

/// Every transition keeps the invariant and never lowers the restart
/// count.
pub proof fn lemma_transitions_keep_invariant(
    policy: Policy,
    r: Runtime,
    pid: u32,
    restart: bool,
    signal: u8,
    timeout_ms: u32,
    exit_code: i32,
    rss: u64,
    now: u64,
)
    requires
        r.wf(),
    ensures
        r.start_wanted().0.wf(),
        !r.status.is_alive() ==> r.spawned(policy, pid, restart, now).wf(),
        r.made_ready().wf(),
        r.stop_wanted(policy, signal, timeout_ms, now).0.wf(),
        r.restart_wanted(policy, now).0.wf(),
        r.delete_wanted(policy, now).0.wf(),
        r.exited(policy, exit_code, now).0.wf(),
        r.ticked(policy, now).0.wf(),
        r.sampled(policy, rss, now).0.wf(),
        r.start_wanted().0.restart_count == r.restart_count,
        r.spawned(policy, pid, restart, now).restart_count >= r.restart_count,
        r.made_ready().restart_count == r.restart_count,
        r.stop_wanted(policy, signal, timeout_ms, now).0.restart_count == r.restart_count,
        r.restart_wanted(policy, now).0.restart_count == r.restart_count,
        r.delete_wanted(policy, now).0.restart_count == r.restart_count,
        r.exited(policy, exit_code, now).0.restart_count == r.restart_count,
        r.ticked(policy, now).0.restart_count == r.restart_count,
        r.sampled(policy, rss, now).0.restart_count == r.restart_count,
{
}

} // verus!
