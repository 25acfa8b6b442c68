use velos::mcp::{
    all_tools, overall_health, process_health, McpServer, Method, Tool, INVALID_PARAMS,
    METHOD_NOT_FOUND, PARSE_ERROR, PROTOCOL_VERSION,
};
use velos::monitor::{
    log_line, make_rows, status_tint, total_memory, Action, AppState, Key, Tint, HISTORY_LEN,
};
use velos::protocol::ProcessInfo;
use velos::LogEntry;

fn process(id: u32, name: &str, status: u8, memory: u64, restarts: u32) -> ProcessInfo {
    ProcessInfo {
        id,
        name: name.to_string(),
        pid: 100 + id,
        status,
        memory_bytes: memory,
        uptime_ms: 5000,
        restart_count: restarts,
    }
}

fn three() -> Vec<ProcessInfo> {
    vec![process(4, "a", 1, 2048, 0), process(7, "b", 0, 4096, 1), process(9, "c", 3, 1023, 2)]
}

#[test]
fn rows_mirror_the_list() {
    let rows = make_rows(&three());
    assert_eq!(rows.len(), 3);
    assert_eq!(rows[1].id, 7);
    assert_eq!(rows[1].name, "b");
    assert_eq!(rows[1].pid, 107);
    assert_eq!(rows[1].status, "stopped");
    assert_eq!(rows[1].memory, 4096);
    assert_eq!(rows[1].uptime, 5000);
    assert_eq!(rows[1].restarts, 1);
    assert_eq!(rows[2].status, "starting");
    assert_eq!(total_memory(&rows), 2048 + 4096 + 1023);
    let huge = make_rows(&[process(1, "x", 1, u64::MAX, 0), process(2, "y", 1, 5, 0)]);
    assert_eq!(total_memory(&huge), u64::MAX);
    assert_eq!(total_memory(&Vec::new()), 0);
}

#[test]
fn keys_move_the_selection() {
    let mut state = AppState::new(&three());
    assert_eq!(state.selected, 0);
    assert_eq!(state.on_key(Key::Up), Action::Nothing);
    assert_eq!(state.selected, 0);
    state.on_key(Key::Down);
    state.on_key(Key::Down);
    assert_eq!(state.selected, 2);
    state.on_key(Key::Down);
    assert_eq!(state.selected, 2);
    state.on_key(Key::Up);
    assert_eq!(state.selected, 1);
    assert!(!state.should_quit);
    assert_eq!(state.on_key(Key::Other), Action::Nothing);
    assert_eq!(state.on_key(Key::Quit), Action::Nothing);
    assert!(state.should_quit);
    assert_eq!(state.selected, 1);
}

#[test]
fn keys_act_on_the_selected_process() {
    let mut state = AppState::new(&three());
    assert_eq!(state.on_key(Key::Restart), Action::Restart(4));
    state.on_key(Key::Down);
    assert_eq!(state.on_key(Key::Stop), Action::Stop(7));
    assert_eq!(state.on_key(Key::Delete), Action::Delete(7));
    assert_eq!(state.on_key(Key::Logs), Action::FetchLogs(7));
    let mut empty = AppState::new(&[]);
    for key in [Key::Restart, Key::Stop, Key::Delete, Key::Logs, Key::Up, Key::Down] {
        assert_eq!(empty.on_key(key), Action::Nothing);
    }
    assert_eq!(empty.selected, 0);
}

#[test]
fn refresh_clamps_and_records() {
    let mut state = AppState::new(&three());
    state.selected = 2;
    state.refresh(&three());
    assert_eq!(state.selected, 2);
    assert_eq!(state.mem_history, vec![vec![2], vec![4], vec![0]]);
    state.refresh(&three()[..2]);
    assert_eq!(state.selected, 1);
    assert_eq!(state.mem_history, vec![vec![2, 2], vec![4, 4]]);
    state.refresh(&three());
    assert_eq!(state.mem_history, vec![vec![2, 2, 2], vec![4, 4, 4], vec![0]]);
    state.refresh(&[]);
    assert_eq!(state.selected, 1);
    assert!(state.processes.is_empty());
    assert!(state.mem_history.is_empty());
    assert_eq!(state.on_key(Key::Restart), Action::Nothing);
}

#[test]
fn history_keeps_sixty_samples() {
    let mut state = AppState::new(&[]);
    for i in 0..100u64 {
        state.refresh(&[process(1, "a", 1, i * 1024, 0)]);
    }
    assert_eq!(HISTORY_LEN, 60);
    assert_eq!(state.mem_history[0].len(), 60);
    assert_eq!(state.mem_history[0][0], 40);
    assert_eq!(state.mem_history[0][59], 99);
}

#[test]
fn log_lines_and_colours() {
    let out = LogEntry { timestamp_ms: 0, level: 1, stream: 0, message: "hello".into() };
    let err = LogEntry { timestamp_ms: 0, level: 3, stream: 1, message: "oops".into() };
    assert_eq!(log_line(&out), "[out] hello");
    assert_eq!(log_line(&err), "[err] oops");
    let mut state = AppState::new(&three());
    state.set_logs(&[out, err]);
    assert_eq!(state.logs, vec!["[out] hello", "[err] oops"]);
    assert_eq!(state.first_visible_log(1), 1);
    assert_eq!(state.first_visible_log(2), 0);
    assert_eq!(state.first_visible_log(5), 0);
    assert_eq!(state.first_visible_log(0), 2);
    assert_eq!(status_tint("running"), Tint::Green);
    assert_eq!(status_tint("stopped"), Tint::Red);
    assert_eq!(status_tint("errored"), Tint::Red);
    assert_eq!(status_tint("starting"), Tint::Yellow);
    assert_eq!(status_tint("unknown"), Tint::White);
}

#[test]
fn methods_and_codes() {
    assert_eq!(Method::of("initialize"), Some(Method::Initialize));
    assert_eq!(Method::of("tools/list"), Some(Method::ToolsList));
    assert_eq!(Method::of("tools/call"), Some(Method::ToolsCall));
    assert_eq!(Method::of("ping"), Some(Method::Ping));
    assert_eq!(Method::of("tools"), None);
    assert_eq!(Method::of("Ping"), None);
    assert_eq!(PARSE_ERROR, -32700);
    assert_eq!(METHOD_NOT_FOUND, -32601);
    assert_eq!(INVALID_PARAMS, -32602);
    assert_eq!(PROTOCOL_VERSION, "2024-11-05");
}

#[test]
fn every_listed_tool_can_be_called() {
    let tools = all_tools();
    let names: Vec<&str> = tools.iter().map(|t| t.name).collect();
    assert_eq!(
        names,
        vec![
            "process_list",
            "process_start",
            "process_stop",
            "process_restart",
            "process_delete",
            "process_info",
            "log_read",
            "log_search",
            "log_summary",
            "health_check",
            "metrics_snapshot",
            "config_get",
            "config_set",
        ]
    );
    for t in &tools {
        let tool = Tool::of(t.name).unwrap();
        assert_eq!(tool.as_str(), t.name);
        assert!(!t.description.is_empty());
    }
    assert_eq!(Tool::of("process_list"), Some(Tool::ProcessList));
    assert_eq!(Tool::of("config_set"), Some(Tool::ConfigSet));
    assert_eq!(Tool::of("process"), None);
    assert_eq!(McpServer::new().definitions().len(), 13);
    assert_eq!(McpServer::default().definitions().len(), 13);
}

#[test]
fn tool_parameters() {
    let tools = all_tools();
    let required = |name: &str| -> Vec<&str> {
        let t = tools.iter().find(|t| t.name == name).unwrap();
        t.params.iter().filter(|p| p.required).map(|p| p.name).collect()
    };
    assert_eq!(required("process_list"), Vec::<&str>::new());
    assert_eq!(required("process_start"), vec!["script"]);
    assert_eq!(required("log_search"), vec!["name_or_id", "pattern"]);
    assert_eq!(required("metrics_snapshot"), Vec::<&str>::new());
    assert_eq!(required("config_set"), vec!["name_or_id", "changes"]);
    let log_read = tools.iter().find(|t| t.name == "log_read").unwrap();
    let params: Vec<(&str, &str, Option<u32>)> =
        log_read.params.iter().map(|p| (p.name, p.kind, p.default)).collect();
    assert_eq!(
        params,
        vec![("name_or_id", "string", None), ("lines", "integer", Some(50)), ("level", "string", None)]
    );
    let summary = tools.iter().find(|t| t.name == "log_summary").unwrap();
    assert_eq!(summary.params[1].default, Some(200));
    let set = tools.iter().find(|t| t.name == "config_set").unwrap();
    assert_eq!(set.params[1].kind, "object");
}

#[test]
fn health_scores() {
    let h = process_health(&process(1, "a", 1, 0, 0));
    assert_eq!((h.score, h.issues.len()), (100, 0));
    let h = process_health(&process(1, "a", 0, 0, 0));
    assert_eq!(h.score, 50);
    assert_eq!(h.issues, vec!["status: stopped"]);
    let h = process_health(&process(1, "a", 1, 0, 4));
    assert_eq!(h.score, 88);
    assert_eq!(h.issues, vec!["4 restarts"]);
    let h = process_health(&process(1, "a", 2, 0, 9));
    assert_eq!(h.score, 23);
    assert_eq!(h.issues, vec!["status: errored", "9 restarts"]);
    let h = process_health(&process(1, "a", 9, 0, u32::MAX));
    assert_eq!(h.score, 20);
    assert_eq!(h.issues, vec!["status: unknown", "4294967295 restarts"]);
    assert_eq!(process_health(&process(1, "a", 1, 0, 10)).score, 70);
    assert_eq!(process_health(&process(1, "a", 3, 0, 0)).issues, vec!["status: starting"]);
    assert_eq!(overall_health(&[]), 100);
    assert_eq!(overall_health(&three()), 44);
    assert_eq!(overall_health(&three()[..1]), 100);
}
