//! The tool server: the tools it offers, the methods it answers, and the
//! health report.

use vstd::prelude::*;
use vstd::string::StringExecFns;

use crate::protocol::{status_name, views, ProcessInfo, ProcessInfoView};
use crate::text::{decimal, push_decimal, str_eq};

verus! {

/// The JSON-RPC error code for a line that is no JSON-RPC request.
pub const PARSE_ERROR: i32 = -32700;

/// The JSON-RPC error code for a method that the server does not know.
pub const METHOD_NOT_FOUND: i32 = -32601;

/// The JSON-RPC error code for a call without parameters or tool name.
pub const INVALID_PARAMS: i32 = -32602;

/// The protocol version that the server announces.
pub const PROTOCOL_VERSION: &'static str = "2024-11-05";

/// The methods that the server answers.
#[derive(Debug, Clone, Copy, PartialEq, Eq, Structural)]
pub enum Method {
    Initialize,
    ToolsList,
    ToolsCall,
    Ping,
}

impl Method {
    /// The method that a name stands for.
    pub open spec fn of_name(name: Seq<char>) -> Option<Method> {
        if name == "initialize"@ {
            Some(Method::Initialize)
        } else if name == "tools/list"@ {
            Some(Method::ToolsList)
        } else if name == "tools/call"@ {
            Some(Method::ToolsCall)
        } else if name == "ping"@ {
            Some(Method::Ping)
        } else {
            None
        }
    }

    /// The method that a name stands for; `None` for a name that the
    /// server answers with `METHOD_NOT_FOUND`.
    pub fn of(name: &str) -> (r: Option<Method>)
        ensures
            r == Self::of_name(name@),
    {
        if str_eq(name, "initialize") {
            Some(Method::Initialize)
        } else if str_eq(name, "tools/list") {
            Some(Method::ToolsList)
        } else if str_eq(name, "tools/call") {
            Some(Method::ToolsCall)
        } else if str_eq(name, "ping") {
            Some(Method::Ping)
        } else {
            None
        }
    }
}

/// The tools that the server offers.
#[derive(Debug, Clone, Copy, PartialEq, Eq, Structural)]
pub enum Tool {
    ProcessList,
    ProcessStart,
    ProcessStop,
    ProcessRestart,
    ProcessDelete,
    ProcessInfo,
    LogRead,
    LogSearch,
    LogSummary,
    HealthCheck,
    MetricsSnapshot,
    ConfigGet,
    ConfigSet,
}

impl Tool {
    /// The name of the tool.
    pub open spec fn name(self) -> Seq<char> {
        match self {
            Tool::ProcessList => "process_list"@,
            Tool::ProcessStart => "process_start"@,
            Tool::ProcessStop => "process_stop"@,
            Tool::ProcessRestart => "process_restart"@,
            Tool::ProcessDelete => "process_delete"@,
            Tool::ProcessInfo => "process_info"@,
            Tool::LogRead => "log_read"@,
            Tool::LogSearch => "log_search"@,
            Tool::LogSummary => "log_summary"@,
            Tool::HealthCheck => "health_check"@,
            Tool::MetricsSnapshot => "metrics_snapshot"@,
            Tool::ConfigGet => "config_get"@,
            Tool::ConfigSet => "config_set"@,
        }
    }

    /// The tool that a name stands for.
    pub open spec fn of_name(name: Seq<char>) -> Option<Tool> {
        if name == "process_list"@ {
            Some(Tool::ProcessList)
        } else if name == "process_start"@ {
            Some(Tool::ProcessStart)
        } else if name == "process_stop"@ {
            Some(Tool::ProcessStop)
        } else if name == "process_restart"@ {
            Some(Tool::ProcessRestart)
        } else if name == "process_delete"@ {
            Some(Tool::ProcessDelete)
        } else if name == "process_info"@ {
            Some(Tool::ProcessInfo)
        } else if name == "log_read"@ {
            Some(Tool::LogRead)
        } else if name == "log_search"@ {
            Some(Tool::LogSearch)
        } else if name == "log_summary"@ {
            Some(Tool::LogSummary)
        } else if name == "health_check"@ {
            Some(Tool::HealthCheck)
        } else if name == "metrics_snapshot"@ {
            Some(Tool::MetricsSnapshot)
        } else if name == "config_get"@ {
            Some(Tool::ConfigGet)
        } else if name == "config_set"@ {
            Some(Tool::ConfigSet)
        } else {
            None
        }
    }

    /// The tools in the order in which they are listed.
    pub open spec fn listed() -> Seq<Tool> {
        seq![
            Tool::ProcessList,
            Tool::ProcessStart,
            Tool::ProcessStop,
            Tool::ProcessRestart,
            Tool::ProcessDelete,
            Tool::ProcessInfo,
            Tool::LogRead,
            Tool::LogSearch,
            Tool::LogSummary,
            Tool::HealthCheck,
            Tool::MetricsSnapshot,
            Tool::ConfigGet,
            Tool::ConfigSet,
        ]
    }

    /// The name of the tool.
    pub fn as_str(&self) -> (s: &'static str)
        ensures
            s@ == self.name(),
    {
        match self {
            Tool::ProcessList => "process_list",
            Tool::ProcessStart => "process_start",
            Tool::ProcessStop => "process_stop",
            Tool::ProcessRestart => "process_restart",
            Tool::ProcessDelete => "process_delete",
            Tool::ProcessInfo => "process_info",
            Tool::LogRead => "log_read",
            Tool::LogSearch => "log_search",
            Tool::LogSummary => "log_summary",
            Tool::HealthCheck => "health_check",
            Tool::MetricsSnapshot => "metrics_snapshot",
            Tool::ConfigGet => "config_get",
            Tool::ConfigSet => "config_set",
        }
    }

    /// The tool that a name stands for; `None` for an unknown tool.
    pub fn of(name: &str) -> (r: Option<Tool>)
        ensures
            r == Self::of_name(name@),
    {
        if str_eq(name, "process_list") {
            Some(Tool::ProcessList)
        } else if str_eq(name, "process_start") {
            Some(Tool::ProcessStart)
        } else if str_eq(name, "process_stop") {
            Some(Tool::ProcessStop)
        } else if str_eq(name, "process_restart") {
            Some(Tool::ProcessRestart)
        } else if str_eq(name, "process_delete") {
            Some(Tool::ProcessDelete)
        } else if str_eq(name, "process_info") {
            Some(Tool::ProcessInfo)
        } else if str_eq(name, "log_read") {
            Some(Tool::LogRead)
        } else if str_eq(name, "log_search") {
            Some(Tool::LogSearch)
        } else if str_eq(name, "log_summary") {
            Some(Tool::LogSummary)
        } else if str_eq(name, "health_check") {
            Some(Tool::HealthCheck)
        } else if str_eq(name, "metrics_snapshot") {
            Some(Tool::MetricsSnapshot)
        } else if str_eq(name, "config_get") {
            Some(Tool::ConfigGet)
        } else if str_eq(name, "config_set") {
            Some(Tool::ConfigSet)
        } else {
            None
        }
    }
}

/// Every tool is found under its own name, so that every tool that the
/// server lists can be called, and no two tools share a name.
pub proof fn lemma_tools_known(tool: Tool)
    ensures
        Tool::of_name(tool.name()) == Some(tool),
{
    reveal_strlit("process_list");
    reveal_strlit("process_start");
    reveal_strlit("process_stop");
    reveal_strlit("process_restart");
    reveal_strlit("process_delete");
    reveal_strlit("process_info");
    reveal_strlit("log_read");
    reveal_strlit("log_search");
    reveal_strlit("log_summary");
    reveal_strlit("health_check");
    reveal_strlit("metrics_snapshot");
    reveal_strlit("config_get");
    reveal_strlit("config_set");
    assert("process_list"@.len() != "process_start"@.len());
    assert("process_list"@[8] != "process_stop"@[8]);
    assert("process_start"@.len() != "process_stop"@.len());
    assert("process_list"@.len() != "process_restart"@.len());
    assert("process_start"@.len() != "process_restart"@.len());
    assert("process_stop"@.len() != "process_restart"@.len());
    assert("process_list"@.len() != "process_delete"@.len());
    assert("process_start"@.len() != "process_delete"@.len());
    assert("process_stop"@.len() != "process_delete"@.len());
    assert("process_restart"@.len() != "process_delete"@.len());
    assert("process_list"@[8] != "process_info"@[8]);
    assert("process_start"@.len() != "process_info"@.len());
    assert("process_stop"@[8] != "process_info"@[8]);
    assert("process_restart"@.len() != "process_info"@.len());
    assert("process_delete"@.len() != "process_info"@.len());
    assert("process_list"@.len() != "log_read"@.len());
    assert("process_start"@.len() != "log_read"@.len());
    assert("process_stop"@.len() != "log_read"@.len());
    assert("process_restart"@.len() != "log_read"@.len());
    assert("process_delete"@.len() != "log_read"@.len());
    assert("process_info"@.len() != "log_read"@.len());
    assert("process_list"@.len() != "log_search"@.len());
    assert("process_start"@.len() != "log_search"@.len());
    assert("process_stop"@.len() != "log_search"@.len());
    assert("process_restart"@.len() != "log_search"@.len());
    assert("process_delete"@.len() != "log_search"@.len());
    assert("process_info"@.len() != "log_search"@.len());
    assert("log_read"@.len() != "log_search"@.len());
    assert("process_list"@.len() != "log_summary"@.len());
    assert("process_start"@.len() != "log_summary"@.len());
    assert("process_stop"@.len() != "log_summary"@.len());
    assert("process_restart"@.len() != "log_summary"@.len());
    assert("process_delete"@.len() != "log_summary"@.len());
    assert("process_info"@.len() != "log_summary"@.len());
    assert("log_read"@.len() != "log_summary"@.len());
    assert("log_search"@.len() != "log_summary"@.len());
    assert("process_list"@[0] != "health_check"@[0]);
    assert("process_start"@.len() != "health_check"@.len());
    assert("process_stop"@[0] != "health_check"@[0]);
    assert("process_restart"@.len() != "health_check"@.len());
    assert("process_delete"@.len() != "health_check"@.len());
    assert("process_info"@[0] != "health_check"@[0]);
    assert("log_read"@.len() != "health_check"@.len());
    assert("log_search"@.len() != "health_check"@.len());
    assert("log_summary"@.len() != "health_check"@.len());
    assert("process_list"@.len() != "metrics_snapshot"@.len());
    assert("process_start"@.len() != "metrics_snapshot"@.len());
    assert("process_stop"@.len() != "metrics_snapshot"@.len());
    assert("process_restart"@.len() != "metrics_snapshot"@.len());
    assert("process_delete"@.len() != "metrics_snapshot"@.len());
    assert("process_info"@.len() != "metrics_snapshot"@.len());
    assert("log_read"@.len() != "metrics_snapshot"@.len());
    assert("log_search"@.len() != "metrics_snapshot"@.len());
    assert("log_summary"@.len() != "metrics_snapshot"@.len());
    assert("health_check"@.len() != "metrics_snapshot"@.len());
    assert("process_list"@.len() != "config_get"@.len());
    assert("process_start"@.len() != "config_get"@.len());
    assert("process_stop"@.len() != "config_get"@.len());
    assert("process_restart"@.len() != "config_get"@.len());
    assert("process_delete"@.len() != "config_get"@.len());
    assert("process_info"@.len() != "config_get"@.len());
    assert("log_read"@.len() != "config_get"@.len());
    assert("log_search"@[0] != "config_get"@[0]);
    assert("log_summary"@.len() != "config_get"@.len());
    assert("health_check"@.len() != "config_get"@.len());
    assert("metrics_snapshot"@.len() != "config_get"@.len());
    assert("process_list"@.len() != "config_set"@.len());
    assert("process_start"@.len() != "config_set"@.len());
    assert("process_stop"@.len() != "config_set"@.len());
    assert("process_restart"@.len() != "config_set"@.len());
    assert("process_delete"@.len() != "config_set"@.len());
    assert("process_info"@.len() != "config_set"@.len());
    assert("log_read"@.len() != "config_set"@.len());
    assert("log_search"@[0] != "config_set"@[0]);
    assert("log_summary"@.len() != "config_set"@.len());
    assert("health_check"@.len() != "config_set"@.len());
    assert("metrics_snapshot"@.len() != "config_set"@.len());
    assert("config_get"@[7] != "config_set"@[7]);
}

/// A parameter of a tool.
#[derive(Debug, Clone)]
pub struct ToolParam {
    pub name: &'static str,
    /// The JSON type of the parameter.
    pub kind: &'static str,
    pub description: &'static str,
    /// The value used where the parameter is left out, if it has one.
    pub default: Option<u32>,
    pub required: bool,
}

/// A tool as the server lists it.
#[derive(Debug, Clone)]
pub struct ToolDefinition {
    pub name: &'static str,
    pub description: &'static str,
    pub params: Vec<ToolParam>,
}

/// A parameter.
fn param(
    name: &'static str,
    kind: &'static str,
    description: &'static str,
    default: Option<u32>,
    required: bool,
) -> (p: ToolParam)
    ensures
        p.name@ == name@,
        p.kind@ == kind@,
        p.description@ == description@,
        p.default == default,
        p.required == required,
{
    ToolParam { name, kind, description, default, required }
}

/// The names of a list of definitions.
pub open spec fn tool_names(tools: Seq<ToolDefinition>) -> Seq<Seq<char>> {
    tools.map_values(|t: ToolDefinition| t.name@)
}

/// The definitions of all tools, in the order of `Tool::listed`: each
/// definition carries the name of its tool.
pub fn all_tools() -> (tools: Vec<ToolDefinition>)
    ensures
        tool_names(tools@) == Tool::listed().map_values(|t: Tool| t.name()),
{
    let mut tools: Vec<ToolDefinition> = Vec::new();
    let mut params: Vec<ToolParam> = Vec::new();
    tools.push(ToolDefinition { name: "process_list", description: "List all managed processes with status, CPU, memory, uptime", params });
    let mut params: Vec<ToolParam> = Vec::new();
    params.push(param("script", "string", "Path to script or command to run", None, true));
    params.push(param("name", "string", "Process name (optional, defaults to script basename)", None, false));
    params.push(param("cwd", "string", "Working directory", None, false));
    params.push(param("interpreter", "string", "Interpreter (e.g. node, python3)", None, false));
    tools.push(ToolDefinition { name: "process_start", description: "Start a new process", params });
    let mut params: Vec<ToolParam> = Vec::new();
    params.push(param("name_or_id", "string", "Process name or numeric ID", None, true));
    tools.push(ToolDefinition { name: "process_stop", description: "Stop a running process by name or ID", params });
    let mut params: Vec<ToolParam> = Vec::new();
    params.push(param("name_or_id", "string", "Process name or numeric ID", None, true));
    tools.push(ToolDefinition { name: "process_restart", description: "Restart a process by name or ID", params });
    let mut params: Vec<ToolParam> = Vec::new();
    params.push(param("name_or_id", "string", "Process name or numeric ID", None, true));
    tools.push(ToolDefinition { name: "process_delete", description: "Delete a stopped process by name or ID", params });
    let mut params: Vec<ToolParam> = Vec::new();
    params.push(param("name_or_id", "string", "Process name or numeric ID", None, true));
    tools.push(ToolDefinition { name: "process_info", description: "Get detailed information about a process (config, state, metrics)", params });
    let mut params: Vec<ToolParam> = Vec::new();
    params.push(param("name_or_id", "string", "Process name or numeric ID", None, true));
    params.push(param("lines", "integer", "Number of lines (default: 50)", Some(50), false));
    params.push(param("level", "string", "Filter by level: debug,info,warn,error,fatal (comma-separated)", None, false));
    tools.push(ToolDefinition { name: "log_read", description: "Read last N log lines for a process, optionally filtered by level", params });
    let mut params: Vec<ToolParam> = Vec::new();
    params.push(param("name_or_id", "string", "Process name or numeric ID", None, true));
    params.push(param("pattern", "string", "Regex pattern to search for", None, true));
    params.push(param("since", "string", "Start time (e.g. '1h', '30m', '2d')", None, false));
    params.push(param("until", "string", "End time", None, false));
    params.push(param("level", "string", "Filter by level (comma-separated)", None, false));
    tools.push(ToolDefinition { name: "log_search", description: "Search logs by regex pattern with optional time range and level filter", params });
    let mut params: Vec<ToolParam> = Vec::new();
    params.push(param("name_or_id", "string", "Process name or numeric ID", None, true));
    params.push(param("lines", "integer", "Number of recent lines to analyze (default: 200)", Some(200), false));
    tools.push(ToolDefinition { name: "log_summary", description: "Get a compact log summary with health score, top patterns, anomalies (saves tokens)", params });
    let mut params: Vec<ToolParam> = Vec::new();
    tools.push(ToolDefinition { name: "health_check", description: "Check health of all processes (overall score + per-process details)", params });
    let mut params: Vec<ToolParam> = Vec::new();
    params.push(param("name_or_id", "string", "Process name or ID (omit for all)", None, false));
    tools.push(ToolDefinition { name: "metrics_snapshot", description: "Get current metrics (memory, uptime, restarts) for one or all processes", params });
    let mut params: Vec<ToolParam> = Vec::new();
    params.push(param("name_or_id", "string", "Process name or numeric ID", None, true));
    tools.push(ToolDefinition { name: "config_get", description: "Get current configuration of a process", params });
    let mut params: Vec<ToolParam> = Vec::new();
    params.push(param("name_or_id", "string", "Process name or numeric ID", None, true));
    params.push(param("changes", "object", "Key-value pairs to change", None, true));
    tools.push(ToolDefinition { name: "config_set", description: "Modify process configuration (env vars, restart policy, etc.)", params });
    assert(tool_names(tools@) =~= Tool::listed().map_values(|t: Tool| t.name()));
    tools
}

/// The tool server: it holds the definitions of the tools it offers.
pub struct McpServer {
    tools: Vec<ToolDefinition>,
}

impl McpServer {
    /// The definitions that the server lists.
    pub closed spec fn tools(&self) -> Seq<ToolDefinition> {
        self.tools@
    }

    /// A server that offers all tools.
    pub fn new() -> (s: Self)
        ensures
            tool_names(s.tools()) == Tool::listed().map_values(|t: Tool| t.name()),
    {
        Self { tools: all_tools() }
    }

    /// The definitions that the server lists.
    pub fn definitions(&self) -> (d: &Vec<ToolDefinition>)
        ensures
            d@ == self.tools(),
    {
        &self.tools
    }
}

impl Default for McpServer {
    fn default() -> (s: Self)
        ensures
            tool_names(s.tools()) == Tool::listed().map_values(|t: Tool| t.name()),
    {
        Self::new()
    }
}

// ------------------------------------------------------------------
// Health report
// ------------------------------------------------------------------
/// The points that restarts cost: three each, thirty at most.
pub open spec fn restart_penalty(restarts: u32) -> nat {
    if restarts >= 10 {
        30
    } else {
        (restarts * 3) as nat
    }
}

/// The health of a process: 100, less 50 if it is not running, less the
/// penalty for its restarts.
pub open spec fn process_score(p: ProcessInfoView) -> nat {
    let base: nat = if p.status == 1 {
        100
    } else {
        50
    };
    (base - restart_penalty(p.restart_count)) as nat
}

/// The health of a list of processes: that of the least healthy; 100 for
/// an empty list.
pub open spec fn overall_score(procs: Seq<ProcessInfoView>) -> nat
    decreases procs.len(),
{
    if procs.len() == 0 {
        100
    } else {
        let rest = overall_score(procs.drop_last());
        if process_score(procs.last()) < rest {
            process_score(procs.last())
        } else {
            rest
        }
    }
}

/// What is wrong with a process: its status if it is not running, then
/// the number of its restarts if it has any.
pub open spec fn process_issues(p: ProcessInfoView) -> Seq<Seq<char>> {
    let status = if p.status == 1 {
        Seq::<Seq<char>>::empty()
    } else {
        seq!["status: "@ + status_name(p.status)]
    };
    if p.restart_count > 0 {
        status.push(decimal(p.restart_count as nat) + " restarts"@)
    } else {
        status
    }
}

/// The score of a process lies between 20 and 100, and no list is
/// healthier than any process in it.
pub proof fn lemma_scores_bounded(procs: Seq<ProcessInfoView>)
    ensures
        20 <= overall_score(procs) <= 100,
        forall|i: int| 0 <= i < procs.len() ==> overall_score(procs) <= process_score(#[trigger] procs[i]),
    decreases procs.len(),
{
    if procs.len() > 0 {
        lemma_scores_bounded(procs.drop_last());
        assert forall|i: int| 0 <= i < procs.len() implies overall_score(procs) <= process_score(
            #[trigger] procs[i],
        ) by {
            if i < procs.len() - 1 {
                assert(procs.drop_last()[i] == procs[i]);
            }
        }
    }
}

/// The health of one process.
pub struct ProcessHealth {
    pub score: u8,
    pub issues: Vec<String>,
}

/// The texts of a list of strings.
pub open spec fn issue_texts(issues: Seq<String>) -> Seq<Seq<char>> {
    issues.map_values(|s: String| s@)
}

/// Tells the health of a process.
pub fn process_health(p: &ProcessInfo) -> (h: ProcessHealth)
    ensures
        h.score == process_score(p@),
        issue_texts(h.issues@) == process_issues(p@),
{
    let mut score: u8 = 100;
    let mut issues: Vec<String> = Vec::new();
    if p.status != 1 {
        score = 50;
        let mut issue = String::from_str("status: ");
        issue.append(p.status_str());
        issues.push(issue);
    }
    if p.restart_count > 0 {
        let penalty: u8 = if p.restart_count >= 10 {
            30
        } else {
            (p.restart_count * 3) as u8
        };
        score = score - penalty;
        let mut issue = String::new();
        push_decimal(&mut issue, p.restart_count as u64);
        issue.append(" restarts");
        issues.push(issue);
    }
    assert(issue_texts(issues@) =~= process_issues(p@));
    ProcessHealth { score, issues }
}

/// Tells the health of a list of processes.
pub fn overall_health(procs: &[ProcessInfo]) -> (score: u8)
    ensures
        score == overall_score(views(procs@)),
{
    let mut overall: u8 = 100;
    let mut i: usize = 0;
    assert(views(procs@).take(0) =~= Seq::<ProcessInfoView>::empty());
    while i < procs.len()
        invariant
            i <= procs.len(),
            overall == overall_score(views(procs@).take(i as int)),
        decreases procs.len() - i,
    {
        assert(views(procs@).take(i + 1).drop_last() =~= views(procs@).take(i as int));
        assert(views(procs@).take(i + 1).last() == procs@[i as int]@);
        let h = process_health(&procs[i]);
        if h.score < overall {
            overall = h.score;
        }
        i += 1;
    }
    assert(views(procs@).take(procs@.len() as int) =~= views(procs@));
    overall
}

} // verus!
