//! From what the user asks to start to the payload sent to the daemon: on
//! the command line, from a configuration file, and through a tool call.

use vstd::prelude::*;
use vstd::string::StringExecFns;

use crate::config::{
    app_name, low32, memory_bytes, opt_text, parse_memory_string, AppConfig, };
use crate::error::VelosError;
use crate::outside::{file_name_of, file_stem_of, path_file_name, path_file_stem};
use crate::protocol::StartPayload;
use crate::resolve::{instances_of, parse_instances};

verus! {

/// The arguments of the start command.
pub struct StartArgs {
    pub script: Option<String>,
    pub name: Option<String>,
    pub json: bool,
    pub config: Option<String>,
    pub watch: bool,
    pub max_restarts: Option<i32>,
    pub no_autorestart: bool,
    pub max_memory: Option<String>,
    pub cron_restart: Option<String>,
    pub wait_ready: bool,
    pub shutdown_with_message: bool,
    pub instances: Option<String>,
}

/// The name of a process started from the command line without one: the
/// file name of its script without extension, or `app` where the script
/// has none.
pub open spec fn name_from_stem(script: Seq<char>) -> Seq<char> {
    match path_file_stem(script) {
        Some(stem) => stem,
        None => "app"@,
    }
}

/// The name of a process started through a tool call without one: the
/// file name of its script, or `app` where the script has none.
pub open spec fn name_from_file(script: Seq<char>) -> Seq<char> {
    match path_file_name(script) {
        Some(name) => name,
        None => "app"@,
    }
}

/// The message for a memory limit on the command line that cannot be
/// read.
pub open spec fn bad_memory_text(cause: Seq<char>) -> Seq<char> {
    "invalid memory format: "@ + ("invalid memory format: "@ + cause)
}

/// What the start command sends for a script, or the message of the
/// error: the memory limit is read first, then the number of instances.
pub open spec fn cli_start(args: StartArgs, script: Seq<char>, cpus: u32) -> Result<
    (u64, u32),
    Seq<char>,
> {
    let memory = match args.max_memory {
        Some(m) => memory_bytes(m@),
        None => Ok(0u64),
    };
    let instances = instances_of(
        match args.instances {
            Some(a) => Some(a@),
            None => None,
        },
        cpus,
    );
    match memory {
        Err(cause) => Err(bad_memory_text(cause)),
        Ok(bytes) => match instances {
            Err(m) => Err(m),
            Ok(n) => Ok((bytes, n)),
        },
    }
}

impl StartArgs {
    /// The script to start; an error when the command names none.
    pub fn required_script(&self) -> (r: Result<&str, VelosError>)
        ensures
            match self.script {
                Some(s) => r matches Ok(t) && t@ == s@,
                None => r matches Err(e) && e.is_protocol(
                    "script argument is required when not using --config"@,
                ),
            },
    {
        match &self.script {
            Some(s) => Ok(s.as_str()),
            None => Err(
                VelosError::ProtocolError(
                    String::from_str("script argument is required when not using --config"),
                ),
            ),
        }
    }

    /// The payload that starts `script` in the directory `cwd` on a machine
    /// with `cpus` processors. The process is called as the command asks,
    /// or after its script; it is restarted unless the command forbids it,
    /// at most as often as the command allows, or 15 times.
    pub fn payload(&self, script: &str, cwd: &str, cpus: u32) -> (r: Result<
        StartPayload,
        VelosError,
    >)
        ensures
            match cli_start(*self, script@, cpus) {
                Err(m) => r matches Err(e) && e.is_protocol(m),
                Ok((memory, instances)) => r matches Ok(p) && {
                    &&& p.name@ == match self.name {
                        Some(n) => n@,
                        None => name_from_stem(script@),
                    }
                    &&& p.script@ == script@
                    &&& p.cwd@ == cwd@
                    &&& p.interpreter is None
                    &&& p.kill_timeout_ms == 5000
                    &&& p.autorestart == !self.no_autorestart
                    &&& p.max_restarts == match self.max_restarts {
                        Some(m) => m,
                        None => 15,
                    }
                    &&& p.min_uptime_ms == 1000
                    &&& p.restart_delay_ms == 0
                    &&& !p.exp_backoff
                    &&& p.max_memory_restart == memory
                    &&& p.watch == self.watch
                    &&& p.watch_delay_ms == 1000
                    &&& p.watch_paths@.len() == 0
                    &&& p.watch_ignore@.len() == 0
                    &&& p.cron_restart@ == opt_text(self.cron_restart)
                    &&& p.wait_ready == self.wait_ready
                    &&& p.listen_timeout_ms == 8000
                    &&& p.shutdown_with_message == self.shutdown_with_message
                    &&& p.instances == instances
                },
            },
    {
        let name: String = match &self.name {
            Some(n) => n.clone(),
            None => match file_stem_of(script) {
                Some(stem) => stem,
                None => String::from_str("app"),
            },
        };
        let memory: u64 = match &self.max_memory {
            Some(m) => match parse_memory_string(m.as_str()) {
                Ok(bytes) => bytes,
                Err(e) => {
                    let cause = e.to_string();
                    let mut msg = String::from_str("invalid memory format: ");
                    msg.append(cause.as_str());
                    assert(msg@ =~= bad_memory_text(memory_bytes(m@)->Err_0));
                    return Err(VelosError::ProtocolError(msg));
                },
            },
            None => 0,
        };
        let instances: u32 = parse_instances(&self.instances, cpus)?;
        let cron: String = match &self.cron_restart {
            Some(c) => c.clone(),
            None => String::new(),
        };
        Ok(
            StartPayload {
                name,
                script: String::from_str(script),
                cwd: String::from_str(cwd),
                interpreter: None,
                kill_timeout_ms: 5000,
                autorestart: !self.no_autorestart,
                max_restarts: match self.max_restarts {
                    Some(m) => m,
                    None => 15,
                },
                min_uptime_ms: 1000,
                restart_delay_ms: 0,
                exp_backoff: false,
                max_memory_restart: memory,
                watch: self.watch,
                watch_delay_ms: 1000,
                watch_paths: String::new(),
                watch_ignore: String::new(),
                cron_restart: cron,
                wait_ready: self.wait_ready,
                listen_timeout_ms: 8000,
                shutdown_with_message: self.shutdown_with_message,
                instances,
            },
        )
    }
}

/// The items of a list, separated by `sep`.
pub open spec fn joined(items: Seq<String>, sep: Seq<char>) -> Seq<char>
    decreases items.len(),
{
    if items.len() == 0 {
        Seq::empty()
    } else if items.len() == 1 {
        items[0]@
    } else {
        joined(items.drop_last(), sep) + sep + items.last()@
    }
}

/// Joins the items of a list with `sep` between them.
pub fn join(items: &Vec<String>, sep: &str) -> (out: String)
    ensures
        out@ == joined(items@, sep@),
{
    let mut out = String::new();
    let mut i: usize = 0;
    assert(items@.take(0) =~= Seq::<String>::empty());
    while i < items.len()
        invariant
            i <= items.len(),
            out@ == joined(items@.take(i as int), sep@),
        decreases items.len() - i,
    {
        assert(items@.take(i + 1).drop_last() =~= items@.take(i as int));
        assert(items@.take(i + 1).last() == items@[i as int]);
        if i > 0 {
            out.append(sep);
        }
        out.append(items[i].as_str());
        proof {
            if i == 0 {
                assert(out@ =~= items@[0]@);
                assert(items@.take(1)[0] == items@[0]);
            }
        }
        i += 1;
    }
    assert(items@.take(items@.len() as int) =~= items@);
    out
}

/// The memory limit of an app in bytes; zero, which is no limit, where
/// none is given or it cannot be read.
pub open spec fn limit_or_zero(size: Option<String>) -> u64 {
    match size {
        Some(m) => match memory_bytes(m@) {
            Ok(n) => n,
            Err(_) => 0,
        },
        None => 0,
    }
}

/// The payload that starts an app of a configuration file under the key
/// `key`. The command line can forbid restarts and set their limit; all
/// else comes from the file. Watch lists are joined with `;`, the working
/// directory is `.` where the file names none, and times wider than 32
/// bits are reduced modulo 2^32.
pub fn config_payload(
    key: &str,
    app: &AppConfig,
    no_autorestart: bool,
    max_restarts: Option<i32>,
) -> (p: StartPayload)
    ensures
        p.name@ == app_name(key@, *app),
        p.script@ == app.script@,
        p.cwd@ == match app.cwd {
            Some(c) => c@,
            None => "."@,
        },
        p.interpreter == app.interpreter,
        p.kill_timeout_ms == low32(app.kill_timeout),
        p.autorestart == (!no_autorestart && app.autorestart),
        p.max_restarts == match max_restarts {
            Some(m) => m,
            None => app.max_restarts,
        },
        p.min_uptime_ms == app.min_uptime,
        p.restart_delay_ms == low32(app.restart_delay),
        p.exp_backoff == app.exp_backoff_restart_delay,
        p.max_memory_restart == limit_or_zero(app.max_memory_restart),
        p.watch == app.watch,
        p.watch_delay_ms == low32(app.watch_delay),
        p.watch_paths@ == joined(app.watch_paths@, ";"@),
        p.watch_ignore@ == joined(app.watch_ignore@, ";"@),
        p.cron_restart@ == opt_text(app.cron_restart),
        !p.wait_ready,
        p.listen_timeout_ms == 8000,
        !p.shutdown_with_message,
        p.instances == app.instances,
{
    let name: String = match &app.name {
        Some(n) => n.clone(),
        None => String::from_str(key),
    };
    let memory: u64 = match &app.max_memory_restart {
        Some(m) => match parse_memory_string(m.as_str()) {
            Ok(bytes) => bytes,
            Err(_) => 0,
        },
        None => 0,
    };
    StartPayload {
        name,
        script: app.script.clone(),
        cwd: match &app.cwd {
            Some(c) => c.clone(),
            None => String::from_str("."),
        },
        interpreter: match &app.interpreter {
            Some(i) => Some(i.clone()),
            None => None,
        },
        kill_timeout_ms: (app.kill_timeout % 4294967296) as u32,
        autorestart: if no_autorestart {
            false
        } else {
            app.autorestart
        },
        max_restarts: match max_restarts {
            Some(m) => m,
            None => app.max_restarts,
        },
        min_uptime_ms: app.min_uptime,
        restart_delay_ms: (app.restart_delay % 4294967296) as u32,
        exp_backoff: app.exp_backoff_restart_delay,
        max_memory_restart: memory,
        watch: app.watch,
        watch_delay_ms: (app.watch_delay % 4294967296) as u32,
        watch_paths: join(&app.watch_paths, ";"),
        watch_ignore: join(&app.watch_ignore, ";"),
        cron_restart: match &app.cron_restart {
            Some(c) => c.clone(),
            None => String::new(),
        },
        wait_ready: false,
        listen_timeout_ms: 8000,
        shutdown_with_message: false,
        instances: app.instances,
    }
}

/// The payload that starts `script` for a tool call: one instance,
/// restarted up to 15 times with a pause of 100 ms, not watched.
pub fn tool_payload(script: String, name: Option<String>, cwd: String, interpreter: Option<
    String,
>) -> (p: StartPayload)
    ensures
        p.name@ == match name {
            Some(n) => n@,
            None => name_from_file(script@),
        },
        p.script@ == script@,
        p.cwd@ == cwd@,
        p.interpreter == interpreter,
        p.kill_timeout_ms == 5000,
        p.autorestart,
        p.max_restarts == 15,
        p.min_uptime_ms == 1000,
        p.restart_delay_ms == 100,
        !p.exp_backoff,
        p.max_memory_restart == 0,
        !p.watch,
        p.watch_delay_ms == 0,
        p.watch_paths@.len() == 0,
        p.watch_ignore@.len() == 0,
        p.cron_restart@.len() == 0,
        !p.wait_ready,
        p.listen_timeout_ms == 8000,
        !p.shutdown_with_message,
        p.instances == 1,
{
    let name: String = match name {
        Some(n) => n,
        None => match file_name_of(script.as_str()) {
            Some(n) => n,
            None => String::from_str("app"),
        },
    };
    StartPayload {
        name,
        script,
        cwd,
        interpreter,
        kill_timeout_ms: 5000,
        autorestart: true,
        max_restarts: 15,
        min_uptime_ms: 1000,
        restart_delay_ms: 100,
        exp_backoff: false,
        max_memory_restart: 0,
        watch: false,
        watch_delay_ms: 0,
        watch_paths: String::new(),
        watch_ignore: String::new(),
        cron_restart: String::new(),
        wait_ready: false,
        listen_timeout_ms: 8000,
        shutdown_with_message: false,
        instances: 1,
    }
}

} // verus!
