//! The rules of the HTTP gateway that do not touch the network: who may
//! pass, which status an error gets, and how a start request becomes a
//! payload.

use vstd::prelude::*;
use vstd::string::StringExecFns;

use crate::protocol::StartPayload;
use crate::text::{chars_of, contains, contains_text, pieces, split, str_eq, texts};

verus! {

/// The bearer token that requests must present; `None` lets everyone pass.
#[derive(Clone)]
pub struct ApiToken(pub Option<String>);

/// Whether one of the `&`-separated pairs of a query is `token=` followed
/// by the expected token.
pub open spec fn query_has_token(query: Seq<char>, expected: Seq<char>) -> bool {
    pieces(query, '&').contains("token="@ + expected)
}

/// Whether a request may pass. Without a configured token every request
/// may. With one, a request passes if its `Authorization` header is
/// `Bearer ` followed by the token, or if it asks for `/ws` and carries
/// the token in its query.
pub open spec fn authorized(
    expected: Option<Seq<char>>,
    path: Seq<char>,
    query: Option<Seq<char>>,
    authorization: Option<Seq<char>>,
) -> bool {
    match expected {
        None => true,
        Some(token) => {
            ||| (path == "/ws"@ && query is Some && query_has_token(query->0, token))
            ||| (authorization is Some && authorization->0 == "Bearer "@ + token)
        },
    }
}

/// The view of an optional string slice.
pub open spec fn opt_view(s: Option<&str>) -> Option<Seq<char>> {
    match s {
        Some(t) => Some(t@),
        None => None,
    }
}

/// Tells whether a query carries the expected token.
fn token_in_query(query: &str, expected: &str) -> (r: bool)
    ensures
        r == query_has_token(query@, expected@),
{
    let mut wanted = String::from_str("token=");
    wanted.append(expected);
    let wanted_chars = chars_of(wanted.as_str());
    let chars = chars_of(query);
    let pairs = split(chars.as_slice(), '&');
    let mut i: usize = 0;
    while i < pairs.len()
        invariant
            i <= pairs.len(),
            wanted_chars@ == "token="@ + expected@,
            texts(pairs@) == pieces(query@, '&'),
            forall|j: int| 0 <= j < i ==> texts(pairs@)[j] != wanted_chars@,
        decreases pairs.len() - i,
    {
        assert(texts(pairs@)[i as int] == pairs@[i as int]@);
        if same_chars(&pairs[i], &wanted_chars) {
            return true;
        }
        i += 1;
    }
    false
}

/// Tells whether two vectors hold the same characters.
fn same_chars(a: &Vec<char>, b: &Vec<char>) -> (r: bool)
    ensures
        r == (a@ == b@),
{
    if a.len() != b.len() {
        return false;
    }
    let mut i: usize = 0;
    while i < a.len()
        invariant
            i <= a.len(),
            a@.len() == b@.len(),
            forall|j: int| 0 <= j < i ==> a@[j] == b@[j],
        decreases a.len() - i,
    {
        if a[i] != b[i] {
            return false;
        }
        i += 1;
    }
    assert(a@ =~= b@);
    true
}

/// Decides whether a request may pass, from its path, its query and its
/// `Authorization` header.
pub fn is_authorized(
    token: &ApiToken,
    path: &str,
    query: Option<&str>,
    authorization: Option<&str>,
) -> (r: bool)
    ensures
        r == authorized(
            match token.0 {
                Some(t) => Some(t@),
                None => None,
            },
            path@,
            opt_view(query),
            opt_view(authorization),
        ),
{
    let expected: &str = match &token.0 {
        Some(t) => t.as_str(),
        None => {
            return true;
        },
    };
    if str_eq(path, "/ws") {
        match query {
            Some(q) => {
                if token_in_query(q, expected) {
                    return true;
                }
            },
            None => {},
        }
    }
    match authorization {
        Some(header) => {
            let mut wanted = String::from_str("Bearer ");
            wanted.append(expected);
            str_eq(header, wanted.as_str())
        },
        None => false,
    }
}

/// The HTTP status of a daemon error: 404 when its message says that
/// something was not found, else 500.
pub open spec fn status_of(message: Seq<char>) -> u16 {
    if contains_text(message, "not found"@) {
        404
    } else {
        500
    }
}

/// Tells the HTTP status of a daemon error from its message.
pub fn error_status(message: &str) -> (status: u16)
    ensures
        status == status_of(message@),
{
    let chars = chars_of(message);
    let needle = chars_of("not found");
    if contains(chars.as_slice(), needle.as_slice()) {
        404
    } else {
        500
    }
}

/// Flags of a start request that are on unless switched off.
pub fn default_true() -> (v: bool)
    ensures
        v,
{
    true
}

/// The kill timeout of a start request that names none, in milliseconds.
pub fn default_kill_timeout() -> (v: u32)
    ensures
        v == 5000,
{
    5000
}

/// The restart limit of a start request that names none.
pub fn default_max_restarts() -> (v: i32)
    ensures
        v == 15,
{
    15
}

/// The stability threshold of a start request that names none.
pub fn default_min_uptime() -> (v: u64)
    ensures
        v == 1000,
{
    1000
}

/// The watch debounce of a start request that names none.
pub fn default_watch_delay() -> (v: u32)
    ensures
        v == 1000,
{
    1000
}

/// The readiness timeout of a start request that names none.
pub fn default_listen_timeout() -> (v: u32)
    ensures
        v == 8000,
{
    8000
}

/// The number of log lines returned where a request asks for no number.
pub fn default_log_lines() -> (v: u32)
    ensures
        v == 100,
{
    100
}

/// The body of a request to start a process, as it was read.
pub struct StartRequest {
    pub name: String,
    pub script: String,
    pub cwd: Option<String>,
    pub interpreter: Option<String>,
    pub kill_timeout_ms: u32,
    pub autorestart: bool,
    pub max_restarts: i32,
    pub min_uptime_ms: u64,
    pub restart_delay_ms: u32,
    pub exp_backoff: bool,
    pub max_memory_restart: u64,
    pub watch: bool,
    pub watch_delay_ms: u32,
    pub watch_paths: Option<String>,
    pub watch_ignore: Option<String>,
    pub cron_restart: Option<String>,
    pub wait_ready: bool,
    pub listen_timeout_ms: u32,
    pub shutdown_with_message: bool,
    pub instances: Option<u32>,
}

/// The text of an optional string, or `fallback` when it is absent.
pub open spec fn text_or(s: Option<String>, fallback: Seq<char>) -> Seq<char> {
    match s {
        Some(t) => t@,
        None => fallback,
    }
}

/// Takes the string out of an option, or makes one from `fallback`.
fn string_or(s: Option<String>, fallback: &str) -> (out: String)
    ensures
        out@ == text_or(s, fallback@),
{
    match s {
        Some(t) => t,
        None => String::from_str(fallback),
    }
}

impl StartRequest {
    /// The payload of this request: the working directory is `.` when none
    /// is given, the lists and the cron expression are empty when none are
    /// given, and one instance is started when no number is given.
    pub fn into_payload(self) -> (p: StartPayload)
        ensures
            p.name@ == self.name@,
            p.script@ == self.script@,
            p.cwd@ == text_or(self.cwd, "."@),
            p.interpreter == self.interpreter,
            p.kill_timeout_ms == self.kill_timeout_ms,
            p.autorestart == self.autorestart,
            p.max_restarts == self.max_restarts,
            p.min_uptime_ms == self.min_uptime_ms,
            p.restart_delay_ms == self.restart_delay_ms,
            p.exp_backoff == self.exp_backoff,
            p.max_memory_restart == self.max_memory_restart,
            p.watch == self.watch,
            p.watch_delay_ms == self.watch_delay_ms,
            p.watch_paths@ == text_or(self.watch_paths, ""@),
            p.watch_ignore@ == text_or(self.watch_ignore, ""@),
            p.cron_restart@ == text_or(self.cron_restart, ""@),
            p.wait_ready == self.wait_ready,
            p.listen_timeout_ms == self.listen_timeout_ms,
            p.shutdown_with_message == self.shutdown_with_message,
            p.instances == match self.instances {
                Some(n) => n,
                None => 1,
            },
    {
        StartPayload {
            name: self.name,
            script: self.script,
            cwd: string_or(self.cwd, "."),
            interpreter: self.interpreter,
            kill_timeout_ms: self.kill_timeout_ms,
            autorestart: self.autorestart,
            max_restarts: self.max_restarts,
            min_uptime_ms: self.min_uptime_ms,
            restart_delay_ms: self.restart_delay_ms,
            exp_backoff: self.exp_backoff,
            max_memory_restart: self.max_memory_restart,
            watch: self.watch,
            watch_delay_ms: self.watch_delay_ms,
            watch_paths: string_or(self.watch_paths, ""),
            watch_ignore: string_or(self.watch_ignore, ""),
            cron_restart: string_or(self.cron_restart, ""),
            wait_ready: self.wait_ready,
            listen_timeout_ms: self.listen_timeout_ms,
            shutdown_with_message: self.shutdown_with_message,
            instances: match self.instances {
                Some(n) => n,
                None => 1,
            },
        }
    }
}

} // verus!
