use velos::client::{
    answers, bare_request, check_response, delete_request, info_request, logs_request,
    restart_request, scale_request, start_request, stop_request, RequestIds,
};
use velos::gateway::{
    default_kill_timeout, default_listen_timeout, default_log_lines, default_max_restarts,
    default_min_uptime, default_true, default_watch_delay, error_status, is_authorized, ApiToken,
    StartRequest,
};
use velos::protocol::{CommandCode, Response, ResponseStatus, ScalePayload};
use velos::VelosError;

#[test]
fn no_token_lets_everyone_pass() {
    let open = ApiToken(None);
    assert!(is_authorized(&open, "/api/processes", None, None));
    assert!(is_authorized(&open, "/ws", Some("token=x"), Some("Bearer y")));
}

#[test]
fn bearer_token_is_checked() {
    let token = ApiToken(Some("s3cret".into()));
    assert!(is_authorized(&token, "/api/processes", None, Some("Bearer s3cret")));
    assert!(is_authorized(&token, "/ws", None, Some("Bearer s3cret")));
    assert!(!is_authorized(&token, "/api/processes", None, None));
    assert!(!is_authorized(&token, "/api/processes", None, Some("Bearer s3cre")));
    assert!(!is_authorized(&token, "/api/processes", None, Some("Bearer s3cret ")));
    assert!(!is_authorized(&token, "/api/processes", None, Some("bearer s3cret")));
    assert!(!is_authorized(&token, "/api/processes", None, Some("s3cret")));
    assert!(!is_authorized(&token, "/api/processes", Some("token=s3cret"), None));
}

#[test]
fn websocket_accepts_the_token_in_the_query() {
    let token = ApiToken(Some("s3cret".into()));
    assert!(is_authorized(&token, "/ws", Some("token=s3cret"), None));
    assert!(is_authorized(&token, "/ws", Some("a=b&token=s3cret&c"), None));
    assert!(is_authorized(&token, "/ws", Some("token=bad&token=s3cret"), None));
    assert!(!is_authorized(&token, "/ws", Some("token=s3cret2"), None));
    assert!(!is_authorized(&token, "/ws", Some("xtoken=s3cret"), None));
    assert!(!is_authorized(&token, "/ws", Some("token=s3cret;x=1"), None));
    assert!(!is_authorized(&token, "/ws", Some(""), None));
    assert!(!is_authorized(&token, "/ws/", Some("token=s3cret"), None));
    assert!(is_authorized(&token, "/ws", Some("token=nope"), Some("Bearer s3cret")));
    let empty = ApiToken(Some(String::new()));
    assert!(is_authorized(&empty, "/ws", Some("token="), None));
    assert!(is_authorized(&empty, "/x", None, Some("Bearer ")));
}

#[test]
fn error_statuses() {
    assert_eq!(error_status("process not found: api"), 404);
    assert_eq!(error_status("protocol error: app not found in table"), 404);
    assert_eq!(error_status("not found"), 404);
    assert_eq!(error_status("Not Found"), 500);
    assert_eq!(error_status("not  found"), 500);
    assert_eq!(error_status("daemon is not running"), 500);
    assert_eq!(error_status(""), 500);
}

#[test]
fn request_defaults() {
    assert!(default_true());
    assert_eq!(default_kill_timeout(), 5000);
    assert_eq!(default_max_restarts(), 15);
    assert_eq!(default_min_uptime(), 1000);
    assert_eq!(default_watch_delay(), 1000);
    assert_eq!(default_listen_timeout(), 8000);
    assert_eq!(default_log_lines(), 100);
}

fn request() -> StartRequest {
    StartRequest {
        name: "api".into(),
        script: "server.js".into(),
        cwd: None,
        interpreter: Some("node".into()),
        kill_timeout_ms: 100,
        autorestart: false,
        max_restarts: -1,
        min_uptime_ms: 7,
        restart_delay_ms: 8,
        exp_backoff: true,
        max_memory_restart: 9,
        watch: true,
        watch_delay_ms: 10,
        watch_paths: None,
        watch_ignore: Some("node_modules".into()),
        cron_restart: None,
        wait_ready: true,
        listen_timeout_ms: 11,
        shutdown_with_message: true,
        instances: None,
    }
}

#[test]
fn start_request_becomes_payload() {
    let p = request().into_payload();
    assert_eq!(p.name, "api");
    assert_eq!(p.script, "server.js");
    assert_eq!(p.cwd, ".");
    assert_eq!(p.interpreter.as_deref(), Some("node"));
    assert_eq!(p.kill_timeout_ms, 100);
    assert!(!p.autorestart);
    assert_eq!(p.max_restarts, -1);
    assert_eq!(p.min_uptime_ms, 7);
    assert_eq!(p.restart_delay_ms, 8);
    assert!(p.exp_backoff);
    assert_eq!(p.max_memory_restart, 9);
    assert!(p.watch);
    assert_eq!(p.watch_delay_ms, 10);
    assert_eq!(p.watch_paths, "");
    assert_eq!(p.watch_ignore, "node_modules");
    assert_eq!(p.cron_restart, "");
    assert!(p.wait_ready);
    assert_eq!(p.listen_timeout_ms, 11);
    assert!(p.shutdown_with_message);
    assert_eq!(p.instances, 1);
    let q = StartRequest { cwd: Some("/srv".into()), instances: Some(4), ..request() }.into_payload();
    assert_eq!(q.cwd, "/srv");
    assert_eq!(q.instances, 4);
}

#[test]
fn request_ids_count_up_and_wrap() {
    let mut ids = RequestIds::new();
    assert_eq!(ids.next(), 1);
    assert_eq!(ids.next(), 2);
    assert_eq!(ids.next(), 3);
    for _ in 0..1000 {
        ids.next();
    }
    assert_eq!(ids.next(), 1004);
}

#[test]
fn client_requests() {
    let stop = stop_request(9, 3);
    assert_eq!(stop.id, 9);
    assert_eq!(stop.command, CommandCode::ProcessStop);
    assert_eq!(stop.payload, vec![3, 0, 0, 0, 15, 0x88, 0x13, 0, 0]);
    let restart = restart_request(1, 258);
    assert_eq!((restart.command, restart.payload), (CommandCode::ProcessRestart, vec![2, 1, 0, 0]));
    let delete = delete_request(1, 2);
    assert_eq!((delete.command, delete.payload), (CommandCode::ProcessDelete, vec![2, 0, 0, 0]));
    let info = info_request(1, 2);
    assert_eq!((info.command, info.payload), (CommandCode::ProcessInfo, vec![2, 0, 0, 0]));
    let logs = logs_request(1, 2, 50);
    assert_eq!((logs.command, logs.payload), (CommandCode::LogRead, vec![2, 0, 0, 0, 50, 0, 0, 0]));
    let scale = scale_request(4, &ScalePayload { name: "a".into(), target_count: 2 });
    assert_eq!((scale.id, scale.command), (4, CommandCode::ProcessScale));
    assert_eq!(scale.payload, vec![1, 0, 0, 0, b'a', 2, 0, 0, 0]);
    for command in [
        CommandCode::ProcessList,
        CommandCode::Ping,
        CommandCode::StateSave,
        CommandCode::StateLoad,
        CommandCode::Shutdown,
    ] {
        let r = bare_request(5, command);
        assert_eq!((r.id, r.command, r.payload.len()), (5, command, 0));
    }
    let payload = request().into_payload();
    let start = start_request(6, &payload);
    assert_eq!((start.id, start.command), (6, CommandCode::ProcessStart));
    assert_eq!(start.payload, payload.encode());
}

#[test]
fn response_statuses() {
    let ok = Response::reply(1, ResponseStatus::Okay, b"pong".to_vec());
    assert!(check_response(&ok).is_ok());
    let streaming = Response::reply(1, ResponseStatus::Streaming, vec![]);
    assert!(check_response(&streaming).is_ok());
    let failed = Response::reply(1, ResponseStatus::Error, b"no such process".to_vec());
    match check_response(&failed) {
        Err(VelosError::ProtocolError(m)) => assert_eq!(m, "no such process"),
        other => panic!("expected a protocol error, got {:?}", other),
    }
    assert!(answers(&ok, 1));
    assert!(!answers(&ok, 2));
}

#[test]
fn error_reports() {
    assert_eq!(
        VelosError::DaemonNotRunning.report_lines(),
        vec!["Error: Daemon is not running.", "  Start it with: velos daemon"]
    );
    assert_eq!(
        VelosError::ConnectionFailed("denied".into()).report_lines(),
        vec![
            "Error: Cannot connect to daemon: denied",
            "  Is the daemon running? Start with: velos daemon"
        ]
    );
    assert_eq!(
        VelosError::ConnectionTimeout.report_lines(),
        vec![
            "Error: Connection to daemon timed out.",
            "  Check if the daemon is responsive: velos ping"
        ]
    );
    assert_eq!(
        VelosError::ProcessNotFound("api".into()).report_lines(),
        vec!["Error: Process 'api' not found.", "  Run 'velos list' to see running processes."]
    );
    assert_eq!(
        VelosError::ProtocolError("bad".into()).report_lines(),
        vec![
            "Error: Protocol error: bad",
            "  This may indicate a version mismatch. Try restarting the daemon."
        ]
    );
    assert_eq!(VelosError::Io("disk full".into()).report_lines(), vec!["Error: disk full"]);
    assert_eq!(
        VelosError::Serialize("x".into()).report_lines(),
        vec!["Error: serialization error: x"]
    );
}
