//! Application configuration: the per-app settings of a configuration
//! file, their validation, human-readable memory sizes, environment
//! profiles, and the merge with command-line overrides.

use vstd::prelude::*;
use vstd::string::StringExecFns;

use crate::outside::alphanumeric;
use crate::process::ProcessConfig;
use crate::text::{
    chars_of, count_fields, decimal, field_count, parse_u64, parse_u64_text, push_decimal,
    push_signed_decimal, signed_decimal, str_eq, string_of_slice, trim, trimmed,
};

verus! {

// ------------------------------------------------------------------
// Errors
// ------------------------------------------------------------------
/// What can go wrong with a configuration.
#[derive(Debug)]
pub enum ConfigError {
    /// The file could not be read; carries the cause.
    Io(String),
    /// The file is not valid TOML or lacks a required key; carries the cause.
    Parse(String),
    /// A setting breaks a rule; carries the explanation.
    Validation(String),
    /// No app has the given key.
    AppNotFound(String),
    /// A memory size cannot be read; carries the explanation.
    InvalidMemory(String),
}

impl ConfigError {
    /// The message shown to the user for this error.
    pub open spec fn text(&self) -> Seq<char> {
        match self {
            ConfigError::Io(m) => "failed to read config file: "@ + m@,
            ConfigError::Parse(m) => "failed to parse TOML: "@ + m@,
            ConfigError::Validation(m) => "validation error: "@ + m@,
            ConfigError::AppNotFound(m) => "app not found in config: "@ + m@,
            ConfigError::InvalidMemory(m) => "invalid memory format: "@ + m@,
        }
    }

    /// Renders the user-facing message.
    pub fn to_string(&self) -> (out: String)
        ensures
            out@ == self.text(),
    {
        match self {
            ConfigError::Io(m) => String::from_str("failed to read config file: ").concat(
                m.as_str(),
            ),
            ConfigError::Parse(m) => String::from_str("failed to parse TOML: ").concat(m.as_str()),
            ConfigError::Validation(m) => String::from_str("validation error: ").concat(
                m.as_str(),
            ),
            ConfigError::AppNotFound(m) => String::from_str("app not found in config: ").concat(
                m.as_str(),
            ),
            ConfigError::InvalidMemory(m) => String::from_str("invalid memory format: ").concat(
                m.as_str(),
            ),
        }
    }
}

// ------------------------------------------------------------------
// Data model
// ------------------------------------------------------------------
/// The windows of the log analysis pipeline, in the units of the
/// configuration file.
#[derive(Debug, Clone, Copy)]
pub struct LogEngineConfig {
    /// Whether log lines are classified by level.
    pub classifier: bool,
    /// The deduplication window, in seconds.
    pub dedup_window: u64,
    /// The pattern detection window, in seconds.
    pub pattern_window: u64,
    /// The anomaly detection window, in minutes.
    pub anomaly_window: u64,
}

/// Flags of the configuration file that are on unless switched off.
pub fn default_true() -> (v: bool)
    ensures
        v,
{
    true
}

/// An app runs as one instance unless configured otherwise.
pub fn default_instances() -> (v: u32)
    ensures
        v == 1,
{
    1
}

/// The restart limit of an app that configures none.
pub fn default_max_restarts() -> (v: i32)
    ensures
        v == 15,
{
    15
}

/// The stability threshold of an app that configures none, in milliseconds.
pub fn default_min_uptime() -> (v: u64)
    ensures
        v == 1000,
{
    1000
}

/// The kill timeout of an app that configures none, in milliseconds.
pub fn default_kill_timeout() -> (v: u64)
    ensures
        v == 5000,
{
    5000
}

/// The watch debounce of an app that configures none, in milliseconds.
pub fn default_watch_delay() -> (v: u64)
    ensures
        v == 1000,
{
    1000
}

/// The number of rotated log files kept by default.
pub fn default_log_retain() -> (v: u32)
    ensures
        v == 30,
{
    30
}

/// The default deduplication window, in seconds.
pub fn default_dedup_window() -> (v: u64)
    ensures
        v == 60,
{
    60
}

/// The default pattern detection window, in seconds.
pub fn default_pattern_window() -> (v: u64)
    ensures
        v == 300,
{
    300
}

/// The default anomaly detection window, in minutes.
pub fn default_anomaly_window() -> (v: u64)
    ensures
        v == 60,
{
    60
}

impl Default for LogEngineConfig {
    fn default() -> (c: Self)
        ensures
            c.classifier,
            c.dedup_window == 60,
            c.pattern_window == 300,
            c.anomaly_window == 60,
    {
        Self {
            classifier: default_true(),
            dedup_window: default_dedup_window(),
            pattern_window: default_pattern_window(),
            anomaly_window: default_anomaly_window(),
        }
    }
}

/// Environment variables as a list of bindings. Where a name is bound more
/// than once the last binding counts.
pub type Env = Vec<(String, String)>;

/// The settings of one application.
#[derive(Debug)]
pub struct AppConfig {
    /// Process name; the app's key stands in when absent.
    pub name: Option<String>,
    /// The script or binary to run.
    pub script: String,
    pub cwd: Option<String>,
    /// The interpreter to run the script with, if any.
    pub interpreter: Option<String>,
    pub args: Vec<String>,
    /// The number of instances; more than one makes a cluster.
    pub instances: u32,
    pub autorestart: bool,
    /// The most restarts allowed; -1 for no limit.
    pub max_restarts: i32,
    /// How long a process must stay up to count as stable, in milliseconds.
    pub min_uptime: u64,
    /// The pause before a restart, in milliseconds.
    pub restart_delay: u64,
    pub exp_backoff_restart_delay: bool,
    /// Time between the stop signal and the kill, in milliseconds.
    pub kill_timeout: u64,
    /// The memory size above which the process is restarted, such as "150M".
    pub max_memory_restart: Option<String>,
    pub watch: bool,
    pub watch_paths: Vec<String>,
    pub watch_ignore: Vec<String>,
    /// The watch debounce, in milliseconds.
    pub watch_delay: u64,
    /// The size at which a log file is rotated, such as "10M".
    pub log_max_size: Option<String>,
    pub log_retain_count: u32,
    /// A five-field cron expression for periodic restarts.
    pub cron_restart: Option<String>,
    pub log_file: Option<String>,
    pub merge_logs: bool,
    /// The base environment.
    pub env: Env,
    /// Named environments that override the base one, by profile name.
    pub env_profiles: Vec<(String, Env)>,
}

/// A whole configuration: the apps by key, in file order, and the log
/// pipeline settings.
#[derive(Debug)]
pub struct VelosConfig {
    pub apps: Vec<(String, AppConfig)>,
    pub logs: Option<LogEngineConfig>,
}

/// Settings given on the command line, which win over the file's.
#[derive(Debug)]
pub struct CliOverrides {
    pub name: Option<String>,
    pub script: Option<String>,
    pub cwd: Option<String>,
    pub interpreter: Option<String>,
    pub kill_timeout_ms: Option<u32>,
    pub autorestart: Option<bool>,
    pub max_restarts: Option<i32>,
    pub max_memory_restart: Option<u64>,
}

impl Default for CliOverrides {
    fn default() -> (o: Self)
        ensures
            o.name is None,
            o.script is None,
            o.cwd is None,
            o.interpreter is None,
            o.kill_timeout_ms is None,
            o.autorestart is None,
            o.max_restarts is None,
            o.max_memory_restart is None,
    {
        Self {
            name: None,
            script: None,
            cwd: None,
            interpreter: None,
            kill_timeout_ms: None,
            autorestart: None,
            max_restarts: None,
            max_memory_restart: None,
        }
    }
}

// ------------------------------------------------------------------
// Memory sizes
// ------------------------------------------------------------------
/// The number of bytes that a unit suffix stands for.
pub open spec fn unit_bytes(c: char) -> Option<nat> {
    if c == 'G' || c == 'g' {
        Some(1073741824)
    } else if c == 'M' || c == 'm' {
        Some(1048576)
    } else if c == 'K' || c == 'k' {
        Some(1024)
    } else if c == 'B' || c == 'b' {
        Some(1)
    } else {
        None
    }
}

/// The part of a trimmed size that writes the number: everything before
/// the unit suffix, or everything where there is no suffix.
pub open spec fn number_part(t: Seq<char>) -> Seq<char> {
    if t.len() > 0 && unit_bytes(t.last()) is Some {
        t.drop_last()
    } else {
        t
    }
}

/// The multiplier of a trimmed size: that of its suffix, or one.
pub open spec fn multiplier(t: Seq<char>) -> nat {
    if t.len() > 0 && unit_bytes(t.last()) is Some {
        unit_bytes(t.last())->0
    } else {
        1
    }
}

/// The message for a size whose number cannot be read or is too large.
pub open spec fn bad_number_text(part: Seq<char>) -> Seq<char> {
    "cannot parse number: '"@ + part + "'"@
}

/// The number of bytes that a size such as "150M", "1G", "512K", "100B" or
/// "1024" stands for, or the explanation of why it stands for none. Units
/// are powers of 1024 and may be lower case; white space around the size
/// and around its number is ignored; a size that does not fit 64 bits is
/// rejected like an unreadable number.
pub open spec fn memory_bytes(s: Seq<char>) -> Result<u64, Seq<char>> {
    let t = trimmed(s);
    if t.len() == 0 {
        Err("empty string"@)
    } else {
        match parse_u64_text(trimmed(number_part(t))) {
            None => Err(bad_number_text(number_part(t))),
            Some(n) => if n * multiplier(t) > u64::MAX {
                Err(bad_number_text(number_part(t)))
            } else {
                Ok((n * multiplier(t)) as u64)
            },
        }
    }
}

/// The multiplier of a unit suffix.
fn unit_of(c: char) -> (r: Option<u64>)
    ensures
        match r {
            Some(m) => unit_bytes(c) == Some(m as nat),
            None => unit_bytes(c) is None,
        },
{
    if c == 'G' || c == 'g' {
        Some(1073741824)
    } else if c == 'M' || c == 'm' {
        Some(1048576)
    } else if c == 'K' || c == 'k' {
        Some(1024)
    } else if c == 'B' || c == 'b' {
        Some(1)
    } else {
        None
    }
}

/// Reads a human-readable memory size into bytes.
pub fn parse_memory_string(s: &str) -> (r: Result<u64, ConfigError>)
    ensures
        match memory_bytes(s@) {
            Ok(n) => r matches Ok(x) && x == n,
            Err(m) => r matches Err(ConfigError::InvalidMemory(t)) && t@ == m,
        },
{
    let chars = chars_of(s);
    let t = trim(chars.as_slice());
    if t.len() == 0 {
        return Err(ConfigError::InvalidMemory(String::from_str("empty string")));
    }
    let last: char = t[t.len() - 1];
    let (part, mult): (&[char], u64) = match unit_of(last) {
        Some(m) => (vstd::slice::slice_subrange(t, 0, t.len() - 1), m),
        None => (t, 1),
    };
    assert(part@ =~= number_part(t@));
    match parse_u64(trim(part)) {
        Some(n) => {
            if n > u64::MAX / mult {
                assert(n * mult > u64::MAX) by (nonlinear_arith)
                    requires
                        n > u64::MAX / mult,
                        mult > 0,
                ;
                Err(ConfigError::InvalidMemory(bad_number(part)))
            } else {
                assert(n * mult <= u64::MAX) by (nonlinear_arith)
                    requires
                        n <= u64::MAX / mult,
                        mult > 0,
                ;
                Ok(n * mult)
            }
        },
        None => Err(ConfigError::InvalidMemory(bad_number(part))),
    }
}

/// The message for a size whose number cannot be read.
fn bad_number(part: &[char]) -> (msg: String)
    ensures
        msg@ == bad_number_text(part@),
{
    let mut msg = String::from_str("cannot parse number: '");
    let text = string_of_slice(part);
    msg.append(text.as_str());
    msg.append("'");
    msg
}

// ------------------------------------------------------------------
// Validation
// ------------------------------------------------------------------
/// The characters allowed in an app name: alphanumeric, dash, underscore.
pub open spec fn name_char_ok(c: char) -> bool {
    alphanumeric(c) || c == '-' || c == '_'
}

/// Whether every character of `name` is allowed in an app name.
pub open spec fn name_chars_ok(name: Seq<char>) -> bool {
    forall|i: int| 0 <= i < name.len() ==> name_char_ok(#[trigger] name[i])
}

/// The name an app goes by: its own, or its key when it has none.
pub open spec fn app_name(key: Seq<char>, app: AppConfig) -> Seq<char> {
    match app.name {
        Some(n) => n@,
        None => key,
    }
}

/// Whether an optional memory size is present and unreadable.
pub open spec fn bad_size(size: Option<String>) -> bool {
    match size {
        Some(m) => memory_bytes(m@) is Err,
        None => false,
    }
}

/// Whether an optional cron expression is present, not empty, and does not
/// have five fields.
pub open spec fn bad_cron(cron: Option<String>) -> bool {
    match cron {
        Some(c) => c@.len() > 0 && field_count(c@) != 5,
        None => false,
    }
}

/// The text of an optional string; empty when absent.
pub open spec fn opt_text(s: Option<String>) -> Seq<char> {
    match s {
        Some(t) => t@,
        None => Seq::<char>::empty(),
    }
}

/// The rule that an app breaks first, in the order in which the rules are
/// checked, as the explanation given to the user; `None` for a valid app.
///
/// The rules: the name is not empty and made of alphanumeric characters,
/// dashes and underscores; the script is not empty; `max_restarts` is at
/// least -1; `kill_timeout` is at least 100 ms; the two memory sizes, where
/// given, can be read; a cron expression, where given and not empty, has
/// five fields; `instances` is at least 1.
pub open spec fn validation_fault(key: Seq<char>, app: AppConfig) -> Option<Seq<char>> {
    let name = app_name(key, app);
    let prefix = "app '"@ + name + "': "@;
    if name.len() == 0 {
        Some("app name must not be empty"@)
    } else if !name_chars_ok(name) {
        Some(
            "app name '"@ + name
                + "' contains invalid characters (only alphanumeric, dash, underscore allowed)"@,
        )
    } else if app.script@.len() == 0 {
        Some(prefix + "script must not be empty"@)
    } else if app.max_restarts < -1 {
        Some(
            prefix + "max_restarts must be >= -1, got "@ + signed_decimal(app.max_restarts as int),
        )
    } else if app.kill_timeout < 100 {
        Some(prefix + "kill_timeout must be >= 100ms, got "@ + decimal(app.kill_timeout as nat))
    } else if bad_size(app.max_memory_restart) {
        Some(
            prefix + "invalid max_memory_restart format: '"@ + opt_text(app.max_memory_restart)
                + "'"@,
        )
    } else if bad_size(app.log_max_size) {
        Some(prefix + "invalid log_max_size format: '"@ + opt_text(app.log_max_size) + "'"@)
    } else if bad_cron(app.cron_restart) {
        Some(
            prefix + "cron_restart must have 5 fields, got "@ + decimal(
                field_count(opt_text(app.cron_restart)),
            ),
        )
    } else if app.instances < 1 {
        Some(prefix + "instances must be >= 1, got "@ + decimal(app.instances as nat))
    } else {
        None
    }
}

/// Tells whether every character of `name` is allowed in an app name.
fn check_name_chars(name: &str) -> (ok: bool)
    ensures
        ok == name_chars_ok(name@),
{
    let chars = chars_of(name);
    let mut i: usize = 0;
    while i < chars.len()
        invariant
            i <= chars.len(),
            chars@ == name@,
            forall|j: int| 0 <= j < i ==> name_char_ok(#[trigger] name@[j]),
        decreases chars.len() - i,
    {
        let c: char = chars[i];
        if !(c.is_alphanumeric() || c == '-' || c == '_') {
            assert(!name_char_ok(name@[i as int]));
            return false;
        }
        i += 1;
    }
    true
}

/// Starts a message about the app called `name`.
fn app_prefix(name: &str) -> (msg: String)
    ensures
        msg@ == "app '"@ + name@ + "': "@,
{
    let mut msg = String::from_str("app '");
    msg.append(name);
    msg.append("': ");
    msg
}

/// Tells whether a memory size is given and cannot be read.
fn size_is_bad(size: &Option<String>) -> (bad: bool)
    ensures
        bad == bad_size(*size),
{
    match size {
        Some(m) => parse_memory_string(m.as_str()).is_err(),
        None => false,
    }
}

/// The text of an optional string.
fn opt_str(s: &Option<String>) -> (t: &str)
    ensures
        t@ == opt_text(*s),
{
    match s {
        Some(x) => x.as_str(),
        None => {
            proof {
                reveal_strlit("");
            }
            assert(""@ =~= Seq::<char>::empty());
            ""
        },
    }
}

/// Checks one app against the rules; the error explains the first rule
/// that it breaks.
pub fn validate_app(key: &str, app: &AppConfig) -> (r: Result<(), ConfigError>)
    ensures
        match validation_fault(key@, *app) {
            None => r is Ok,
            Some(m) => r matches Err(ConfigError::Validation(t)) && t@ == m,
        },
{
    let name: &str = match &app.name {
        Some(n) => n.as_str(),
        None => key,
    };
    if name.is_empty() {
        return Err(ConfigError::Validation(String::from_str("app name must not be empty")));
    }
    if !check_name_chars(name) {
        let mut msg = String::from_str("app name '");
        msg.append(name);
        msg.append("' contains invalid characters (only alphanumeric, dash, underscore allowed)");
        return Err(ConfigError::Validation(msg));
    }
    if app.script.as_str().is_empty() {
        let mut msg = app_prefix(name);
        msg.append("script must not be empty");
        return Err(ConfigError::Validation(msg));
    }
    if app.max_restarts < -1 {
        let mut msg = app_prefix(name);
        msg.append("max_restarts must be >= -1, got ");
        push_signed_decimal(&mut msg, app.max_restarts as i64);
        return Err(ConfigError::Validation(msg));
    }
    if app.kill_timeout < 100 {
        let mut msg = app_prefix(name);
        msg.append("kill_timeout must be >= 100ms, got ");
        push_decimal(&mut msg, app.kill_timeout);
        return Err(ConfigError::Validation(msg));
    }
    if size_is_bad(&app.max_memory_restart) {
        let mut msg = app_prefix(name);
        msg.append("invalid max_memory_restart format: '");
        msg.append(opt_str(&app.max_memory_restart));
        msg.append("'");
        return Err(ConfigError::Validation(msg));
    }
    if size_is_bad(&app.log_max_size) {
        let mut msg = app_prefix(name);
        msg.append("invalid log_max_size format: '");
        msg.append(opt_str(&app.log_max_size));
        msg.append("'");
        return Err(ConfigError::Validation(msg));
    }
    match &app.cron_restart {
        Some(cron) => {
            if !cron.as_str().is_empty() {
                let chars = chars_of(cron.as_str());
                let fields: usize = count_fields(chars.as_slice());
                if fields != 5 {
                    let mut msg = app_prefix(name);
                    msg.append("cron_restart must have 5 fields, got ");
                    push_decimal(&mut msg, fields as u64);
                    return Err(ConfigError::Validation(msg));
                }
            }
        },
        None => {},
    }
    if app.instances < 1 {
        let mut msg = app_prefix(name);
        msg.append("instances must be >= 1, got ");
        push_decimal(&mut msg, app.instances as u64);
        return Err(ConfigError::Validation(msg));
    }
    Ok(())
}

// ------------------------------------------------------------------
// Environment profiles
// ------------------------------------------------------------------
/// The environment that a list of bindings stands for: each name mapped
/// to the value of its last binding.
pub open spec fn env_map(env: Seq<(String, String)>) -> Map<Seq<char>, Seq<char>>
    decreases env.len(),
{
    if env.len() == 0 {
        Map::empty()
    } else {
        env_map(env.drop_last()).insert(env.last().0@, env.last().1@)
    }
}

/// The bindings of the first profile called `name`, if there is one.
pub open spec fn profile_vars(profiles: Seq<(String, Env)>, name: Seq<char>) -> Option<
    Seq<(String, String)>,
>
    decreases profiles.len(),
{
    if profiles.len() == 0 {
        None
    } else if profiles[0].0@ == name {
        Some(profiles[0].1@)
    } else {
        profile_vars(profiles.drop_first(), name)
    }
}

/// The environment of an app under a profile: the base bindings, each
/// overridden by the profile's binding of the same name; the base
/// environment alone when no profile is asked for or none has that name.
pub open spec fn merged_env_map(app: AppConfig, profile: Option<Seq<char>>) -> Map<
    Seq<char>,
    Seq<char>,
> {
    match profile {
        None => env_map(app.env@),
        Some(name) => match profile_vars(app.env_profiles@, name) {
            None => env_map(app.env@),
            Some(vars) => env_map(app.env@).union_prefer_right(env_map(vars)),
        },
    }
}

/// Replacing the last binding of a name changes the environment as binding
/// the name anew does.
proof fn lemma_update_last_binding(env: Seq<(String, String)>, at: int, entry: (String, String))
    requires
        0 <= at < env.len(),
        env[at].0@ == entry.0@,
        forall|j: int| at < j < env.len() ==> env[j].0@ != entry.0@,
    ensures
        env_map(env.update(at, entry)) == env_map(env).insert(entry.0@, entry.1@),
    decreases env.len(),
{
    let updated = env.update(at, entry);
    if at == env.len() - 1 {
        assert(updated.drop_last() =~= env.drop_last());
        assert(env_map(updated) =~= env_map(env).insert(entry.0@, entry.1@));
    } else {
        lemma_update_last_binding(env.drop_last(), at, entry);
        assert(updated.drop_last() =~= env.drop_last().update(at, entry));
        assert(updated.last() == env.last());
        assert(env_map(updated) =~= env_map(env).insert(entry.0@, entry.1@));
    }
}

/// A name that some binding mentions is in the environment.
proof fn lemma_bound_name(env: Seq<(String, String)>, at: int)
    requires
        0 <= at < env.len(),
    ensures
        env_map(env).dom().contains(env[at].0@),
    decreases env.len(),
{
    if at < env.len() - 1 {
        lemma_bound_name(env.drop_last(), at);
    }
}

/// A name that no binding mentions is not in the environment.
proof fn lemma_unbound_name(env: Seq<(String, String)>, name: Seq<char>)
    requires
        forall|j: int| 0 <= j < env.len() ==> env[j].0@ != name,
    ensures
        !env_map(env).dom().contains(name),
    decreases env.len(),
{
    if env.len() > 0 {
        lemma_unbound_name(env.drop_last(), name);
    }
}

/// Binds `key` to `value`: in place of the last binding of `key` when there
/// is one, else at the end.
pub fn set_var(env: &mut Env, key: &str, value: &str)
    ensures
        env_map(final(env)@) == env_map(old(env)@).insert(key@, value@),
        final(env)@.len() == old(env)@.len() || final(env)@.len() == old(env)@.len() + 1,
        final(env)@.len() == old(env)@.len() <==> env_map(old(env)@).dom().contains(key@),
{
    let entry: (String, String) = (String::from_str(key), String::from_str(value));
    let mut i: usize = env.len();
    while i > 0
        invariant
            i <= env.len(),
            env@ == old(env)@,
            entry.0@ == key@,
            entry.1@ == value@,
            forall|j: int| i <= j < env.len() ==> env@[j].0@ != key@,
        decreases i,
    {
        i -= 1;
        if str_eq(env[i].0.as_str(), key) {
            proof {
                lemma_update_last_binding(env@, i as int, entry);
                lemma_bound_name(env@, i as int);
            }
            env.set(i, entry);
            return ;
        }
    }
    proof {
        lemma_unbound_name(env@, key@);
        assert(env@.push(entry).drop_last() =~= env@);
    }
    env.push(entry);
}

/// Copies a list of bindings.
fn copy_env(env: &Env) -> (out: Env)
    ensures
        out@ == env@,
{
    let mut out: Env = Vec::new();
    let mut i: usize = 0;
    while i < env.len()
        invariant
            i <= env.len(),
            out@ == env@.take(i as int),
        decreases env.len() - i,
    {
        out.push((env[i].0.clone(), env[i].1.clone()));
        i += 1;
        assert(out@ =~= env@.take(i as int));
    }
    assert(env@.take(env.len() as int) =~= env@);
    out
}

/// Finds the bindings of the first profile called `name`.
fn find_profile<'a>(profiles: &'a Vec<(String, Env)>, name: &str) -> (r: Option<&'a Env>)
    ensures
        match profile_vars(profiles@, name@) {
            Some(vars) => r matches Some(e) && e@ == vars,
            None => r is None,
        },
{
    let mut i: usize = 0;
    assert(profiles@.skip(0) =~= profiles@);
    while i < profiles.len()
        invariant
            i <= profiles.len(),
            profile_vars(profiles@, name@) == profile_vars(profiles@.skip(i as int), name@),
        decreases profiles.len() - i,
    {
        if str_eq(profiles[i].0.as_str(), name) {
            return Some(&profiles[i].1);
        }
        assert(profiles@.skip(i as int).drop_first() =~= profiles@.skip(i + 1));
        i += 1;
    }
    None
}

/// Adds the bindings of `vars` to `env`, one after the other.
fn overlay(env: &mut Env, vars: &Env)
    ensures
        env_map(final(env)@) == env_map(old(env)@).union_prefer_right(env_map(vars@)),
{
    let mut i: usize = 0;
    assert(vars@.take(0) =~= Seq::<(String, String)>::empty());
    assert(env_map(env@).union_prefer_right(Map::empty()) =~= env_map(env@));
    while i < vars.len()
        invariant
            i <= vars.len(),
            env_map(env@) == env_map(old(env)@).union_prefer_right(env_map(vars@.take(i as int))),
        decreases vars.len() - i,
    {
        let ghost before = env_map(env@);
        set_var(env, vars[i].0.as_str(), vars[i].1.as_str());
        proof {
            let done = vars@.take(i as int);
            let next = vars@.take(i + 1);
            assert(next.drop_last() =~= done);
            assert(next.last() == vars@[i as int]);
            assert(env_map(env@) =~= env_map(old(env)@).union_prefer_right(env_map(next)));
        }
        i += 1;
    }
    assert(vars@.take(vars.len() as int) =~= vars@);
}

/// The environment of an app under a profile, as a list of bindings.
pub fn merged_env(app: &AppConfig, profile: Option<&str>) -> (env: Env)
    ensures
        env_map(env@) == merged_env_map(
            *app,
            match profile {
                Some(p) => Some(p@),
                None => None,
            },
        ),
{
    let mut env = copy_env(&app.env);
    match profile {
        Some(name) => {
            match find_profile(&app.env_profiles, name) {
                Some(vars) => {
                    overlay(&mut env, vars);
                },
                None => {},
            }
        },
        None => {},
    }
    env
}

/// Makes a profile part of an app's base environment. Nothing else of the
/// app changes.
pub fn apply_env_profile(app: &mut AppConfig, profile: &str)
    ensures
        env_map(final(app).env@) == merged_env_map(*old(app), Some(profile@)),
        *final(app) == (AppConfig { env: final(app).env, ..*old(app) }),
{
    let env = merged_env(app, Some(profile));
    app.env = env;
}

// ------------------------------------------------------------------
// From app settings to a process configuration
// ------------------------------------------------------------------
/// A number reduced to 32 bits, as the narrower field of the process
/// configuration holds it.
pub open spec fn low32(v: u64) -> u32 {
    (v as int % 4294967296) as u32
}

/// The first of two optional values that is present.
pub open spec fn first_of<T>(a: Option<T>, b: Option<T>) -> Option<T> {
    if a is Some {
        a
    } else {
        b
    }
}

/// The bytes of an optional memory size, when it is present and readable.
pub open spec fn size_bytes(size: Option<String>) -> Option<u64> {
    match size {
        Some(m) => match memory_bytes(m@) {
            Ok(n) => Some(n),
            Err(_) => None,
        },
        None => None,
    }
}

/// Copies an optional string.
fn copy_opt(s: &Option<String>) -> (out: Option<String>)
    ensures
        out == *s,
{
    match s {
        Some(t) => Some(t.clone()),
        None => None,
    }
}

/// Whether `p` is the process configuration of an app under the overrides
/// of a command line: each setting is taken from the command line where it
/// is given there and from the app otherwise. The memory limit of the app
/// counts only if it can be read; times wider than 32 bits are reduced
/// modulo 2^32.
pub open spec fn is_merge_of(p: ProcessConfig, app: AppConfig, overrides: CliOverrides) -> bool {
    &&& p.name@ == opt_text(first_of(overrides.name, app.name))
    &&& p.script@ == opt_text(first_of(overrides.script, Some(app.script)))
    &&& p.cwd == first_of(overrides.cwd, app.cwd)
    &&& p.interpreter == first_of(overrides.interpreter, app.interpreter)
    &&& p.kill_timeout_ms == first_of(overrides.kill_timeout_ms, Some(low32(app.kill_timeout)))->0
    &&& p.autorestart == first_of(overrides.autorestart, Some(app.autorestart))->0
    &&& p.max_restarts == first_of(overrides.max_restarts, Some(app.max_restarts))->0
    &&& p.min_uptime_ms == app.min_uptime
    &&& p.restart_delay_ms == low32(app.restart_delay)
    &&& p.exp_backoff_restart_delay == app.exp_backoff_restart_delay
    &&& p.max_memory_restart == first_of(
        overrides.max_memory_restart,
        size_bytes(app.max_memory_restart),
    )
}

/// The process configuration of an app under the overrides of a command
/// line.
pub fn merge_with_cli(app: &AppConfig, overrides: &CliOverrides) -> (p: ProcessConfig)
    ensures
        is_merge_of(p, *app, *overrides),
{
    let max_memory: Option<u64> = match overrides.max_memory_restart {
        Some(m) => Some(m),
        None => match &app.max_memory_restart {
            Some(s) => match parse_memory_string(s.as_str()) {
                Ok(n) => Some(n),
                Err(_) => None,
            },
            None => None,
        },
    };
    let name: String = match &overrides.name {
        Some(n) => n.clone(),
        None => match &app.name {
            Some(n) => n.clone(),
            None => String::new(),
        },
    };
    let script: String = match &overrides.script {
        Some(s) => s.clone(),
        None => app.script.clone(),
    };
    let cwd: Option<String> = match &overrides.cwd {
        Some(c) => Some(c.clone()),
        None => copy_opt(&app.cwd),
    };
    let interpreter: Option<String> = match &overrides.interpreter {
        Some(i) => Some(i.clone()),
        None => copy_opt(&app.interpreter),
    };
    ProcessConfig {
        name,
        script,
        cwd,
        interpreter,
        kill_timeout_ms: match overrides.kill_timeout_ms {
            Some(k) => k,
            None => (app.kill_timeout % 4294967296) as u32,
        },
        autorestart: match overrides.autorestart {
            Some(a) => a,
            None => app.autorestart,
        },
        max_restarts: match overrides.max_restarts {
            Some(m) => m,
            None => app.max_restarts,
        },
        min_uptime_ms: app.min_uptime,
        restart_delay_ms: (app.restart_delay % 4294967296) as u32,
        exp_backoff_restart_delay: app.exp_backoff_restart_delay,
        max_memory_restart: max_memory,
    }
}

// ------------------------------------------------------------------
// Whole configurations
// ------------------------------------------------------------------
/// The position of the first app with key `key`, if there is one.
pub open spec fn app_index(apps: Seq<(String, AppConfig)>, key: Seq<char>) -> Option<int>
    decreases apps.len(),
{
    if apps.len() == 0 {
        None
    } else if apps[0].0@ == key {
        Some(0)
    } else {
        match app_index(apps.drop_first(), key) {
            Some(i) => Some(i + 1),
            None => None,
        }
    }
}

/// The first app that breaks a rule, as the explanation of the rule.
pub open spec fn first_fault(apps: Seq<(String, AppConfig)>) -> Option<Seq<char>>
    decreases apps.len(),
{
    if apps.len() == 0 {
        None
    } else {
        match validation_fault(apps[0].0@, apps[0].1) {
            Some(m) => Some(m),
            None => first_fault(apps.drop_first()),
        }
    }
}

/// Whether `after` is `before` with an absent name filled in from `key`.
pub open spec fn named_by_key(key: String, before: AppConfig, after: AppConfig) -> bool {
    &&& after.name matches Some(n) && n@ == app_name(key@, before)
    &&& after == (AppConfig { name: after.name, ..before })
}

/// Whether `after` holds the apps of `before`, in the same order and under
/// the same keys, each with its name filled in.
pub open spec fn all_named(
    before: Seq<(String, AppConfig)>,
    after: Seq<(String, AppConfig)>,
) -> bool {
    &&& after.len() == before.len()
    &&& forall|i: int|
        0 <= i < before.len() ==> (#[trigger] after[i]).0 == before[i].0 && named_by_key(
            before[i].0,
            before[i].1,
            after[i].1,
        )
}

impl VelosConfig {
    /// Completes a configuration that has just been read: every app without
    /// a name gets its key as name, then all apps are validated in order.
    /// The error explains the first rule broken by the first invalid app.
    pub fn from_apps(apps: Vec<(String, AppConfig)>, logs: Option<LogEngineConfig>) -> (r: Result<
        VelosConfig,
        ConfigError,
    >)
        ensures
            match first_fault(apps@) {
                None => r matches Ok(c) && all_named(apps@, c.apps@) && c.logs == logs,
                Some(m) => r matches Err(ConfigError::Validation(t)) && t@ == m,
            },
    {
        let mut list = apps;
        let ghost given = list@;
        let mut i: usize = 0;
        while i < list.len()
            invariant
                i <= list.len(),
                list@.len() == given.len(),
                forall|j: int|
                    0 <= j < i ==> (#[trigger] list@[j]).0 == given[j].0 && named_by_key(
                        given[j].0,
                        given[j].1,
                        list@[j].1,
                    ),
                forall|j: int| i <= j < list.len() ==> list@[j] == given[j],
            decreases list.len() - i,
        {
            let name: String = match &list[i].1.name {
                Some(n) => n.clone(),
                None => list[i].0.clone(),
            };
            list[i].1.name = Some(name);
            i += 1;
        }
        let mut k: usize = 0;
        assert(given.skip(0) =~= given);
        while k < list.len()
            invariant
                k <= list.len(),
                given == apps@,
                all_named(given, list@),
                first_fault(given) == first_fault(given.skip(k as int)),
            decreases list.len() - k,
        {
            assert(given.skip(k as int).drop_first() =~= given.skip(k + 1));
            assert(validation_fault(list@[k as int].0@, list@[k as int].1) == validation_fault(
                given[k as int].0@,
                given[k as int].1,
            ));
            match validate_app(list[k].0.as_str(), &list[k].1) {
                Ok(()) => {},
                Err(e) => {
                    return Err(e);
                },
            }
            k += 1;
        }
        Ok(VelosConfig { apps: list, logs })
    }

    /// The app with the given key.
    pub fn get_app(&self, name: &str) -> (r: Option<&AppConfig>)
        ensures
            match app_index(self.apps@, name@) {
                Some(i) => 0 <= i < self.apps@.len() && r == Some(&self.apps@[i].1),
                None => r is None,
            },
    {
        let mut i: usize = 0;
        assert(self.apps@.skip(0) =~= self.apps@);
        while i < self.apps.len()
            invariant
                i <= self.apps.len(),
                match app_index(self.apps@.skip(i as int), name@) {
                    Some(k) => app_index(self.apps@, name@) == Some(k + i),
                    None => app_index(self.apps@, name@) is None,
                },
            decreases self.apps.len() - i,
        {
            if str_eq(self.apps[i].0.as_str(), name) {
                return Some(&self.apps[i].1);
            }
            assert(self.apps@.skip(i as int).drop_first() =~= self.apps@.skip(i + 1));
            i += 1;
        }
        None
    }

    /// All apps, in file order.
    pub fn all_apps(&self) -> (out: Vec<&AppConfig>)
        ensures
            out@.len() == self.apps@.len(),
            forall|i: int| 0 <= i < out@.len() ==> *out@[i] == self.apps@[i].1,
    {
        let mut out: Vec<&AppConfig> = Vec::new();
        let mut i: usize = 0;
        while i < self.apps.len()
            invariant
                i <= self.apps.len(),
                out@.len() == i,
                forall|j: int| 0 <= j < i ==> *out@[j] == self.apps@[j].1,
            decreases self.apps.len() - i,
        {
            out.push(&self.apps[i].1);
            i += 1;
        }
        out
    }

    /// Makes a profile part of the base environment of every app.
    pub fn apply_profile(&mut self, profile: &str)
        ensures
            final(self).logs == old(self).logs,
            final(self).apps@.len() == old(self).apps@.len(),
            forall|i: int|
                0 <= i < old(self).apps@.len() ==> {
                    let before = old(self).apps@[i];
                    let after = #[trigger] final(self).apps@[i];
                    &&& after.0 == before.0
                    &&& env_map(after.1.env@) == merged_env_map(before.1, Some(profile@))
                    &&& after.1 == (AppConfig { env: after.1.env, ..before.1 })
                },
    {
        let mut i: usize = 0;
        while i < self.apps.len()
            invariant
                i <= self.apps.len(),
                self.logs == old(self).logs,
                self.apps@.len() == old(self).apps@.len(),
                forall|j: int|
                    0 <= j < i ==> {
                        let before = old(self).apps@[j];
                        let after = #[trigger] self.apps@[j];
                        &&& after.0 == before.0
                        &&& env_map(after.1.env@) == merged_env_map(before.1, Some(profile@))
                        &&& after.1 == (AppConfig { env: after.1.env, ..before.1 })
                    },
                forall|j: int| i <= j < self.apps.len() ==> self.apps@[j] == old(self).apps@[j],
            decreases self.apps.len() - i,
        {
            apply_env_profile(&mut self.apps[i].1, profile);
            i += 1;
        }
    }
}

/// The process configuration of the app with key `app_name`, merged with
/// the command line; fails when the configuration has no such app. The
/// environment profile does not enter the process configuration.
pub fn resolve_app(
    config: &VelosConfig,
    app_name: &str,
    overrides: &CliOverrides,
    env_profile: Option<&str>,
) -> (r: Result<ProcessConfig, ConfigError>)
    ensures
        match app_index(config.apps@, app_name@) {
            None => r matches Err(ConfigError::AppNotFound(n)) && n@ == app_name@,
            Some(i) => r matches Ok(p) && 0 <= i < config.apps@.len() && is_merge_of(
                p,
                config.apps@[i].1,
                *overrides,
            ),
        },
{
    match config.get_app(app_name) {
        Some(app) => Ok(merge_with_cli(app, overrides)),
        None => Err(ConfigError::AppNotFound(String::from_str(app_name))),
    }
}

} // verus!
