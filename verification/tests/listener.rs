use velos::client::{bare_request, info_request, logs_request, restart_request, scale_request, start_request, stop_request};
use velos::listener::{
    answer_info, answer_list, answer_log_read, answer_ping, reply_error, reply_ok, reply_streaming,
    Command, Exchange,
};
use velos::log_sink::{log_file_name, LogRing};
use velos::protocol::{
    decode_log_entries, decode_process_detail, decode_process_list, CommandCode, Request,
    Response, ResponseStatus, ScalePayload, StartPayload,
};
use velos::supervisor::{Policy, Runtime};
use velos::table::ProcessTable;
use velos::{LogEntry, VelosError};

fn sample_payload(name: &str) -> StartPayload {
    StartPayload {
        name: name.into(),
        script: "app.js".into(),
        cwd: "/srv".into(),
        interpreter: Some("node".into()),
        kill_timeout_ms: 5000,
        autorestart: true,
        max_restarts: 15,
        min_uptime_ms: 1000,
        restart_delay_ms: 0,
        exp_backoff: false,
        max_memory_restart: 0,
        watch: false,
        watch_delay_ms: 1000,
        watch_paths: String::new(),
        watch_ignore: String::new(),
        cron_restart: String::new(),
        wait_ready: false,
        listen_timeout_ms: 8000,
        shutdown_with_message: false,
        instances: 1,
    }
}

fn through_the_wire(req: &Request) -> Request {
    Request::decode(&req.encode().unwrap()).unwrap()
}

#[test]
fn commands_are_read_from_requests() {
    let start = through_the_wire(&start_request(1, &sample_payload("api")));
    match Command::of(&start).unwrap() {
        Command::Start(p) => {
            assert_eq!(p.name, "api");
            assert_eq!(p.interpreter.as_deref(), Some("node"));
        }
        _ => panic!("expected a start command"),
    }
    match Command::of(&through_the_wire(&stop_request(2, 7))).unwrap() {
        Command::Stop(p) => assert_eq!((p.process_id, p.signal, p.timeout_ms), (7, 15, 5000)),
        _ => panic!("expected a stop command"),
    }
    assert!(matches!(Command::of(&restart_request(3, 8)).unwrap(), Command::Restart(8)));
    assert!(matches!(Command::of(&info_request(3, 9)).unwrap(), Command::Info(9)));
    let scale = scale_request(4, &ScalePayload { name: "api".into(), target_count: 3 });
    match Command::of(&scale).unwrap() {
        Command::Scale(p) => assert_eq!((p.name.as_str(), p.target_count), ("api", 3)),
        _ => panic!("expected a scale command"),
    }
    match Command::of(&logs_request(5, 1, 50)).unwrap() {
        Command::LogRead(p) => assert_eq!((p.process_id, p.lines), (1, 50)),
        _ => panic!("expected a log read command"),
    }
    let delete = Request { id: 6, command: CommandCode::ProcessDelete, payload: vec![4, 0, 0, 0] };
    assert!(matches!(Command::of(&delete).unwrap(), Command::Delete(4)));
    let stream = Request { id: 6, command: CommandCode::LogStream, payload: vec![4, 0, 0, 0, 9] };
    assert!(matches!(Command::of(&stream).unwrap(), Command::LogStream(4)));
    assert!(matches!(Command::of(&bare_request(7, CommandCode::ProcessList)).unwrap(), Command::List));
    assert!(matches!(Command::of(&bare_request(7, CommandCode::MetricsGet)).unwrap(), Command::MetricsGet));
    assert!(matches!(Command::of(&bare_request(7, CommandCode::StateSave)).unwrap(), Command::StateSave));
    assert!(matches!(Command::of(&bare_request(7, CommandCode::StateLoad)).unwrap(), Command::StateLoad));
    assert!(matches!(Command::of(&bare_request(7, CommandCode::Ping)).unwrap(), Command::Ping));
    assert!(matches!(Command::of(&bare_request(7, CommandCode::Shutdown)).unwrap(), Command::Shutdown));
}

#[test]
fn truncated_payloads_are_protocol_errors() {
    for command in [
        CommandCode::ProcessStart,
        CommandCode::ProcessStop,
        CommandCode::ProcessRestart,
        CommandCode::ProcessDelete,
        CommandCode::ProcessInfo,
        CommandCode::ProcessScale,
        CommandCode::LogRead,
        CommandCode::LogStream,
    ] {
        let req = Request { id: 1, command, payload: vec![1, 0, 0] };
        assert!(matches!(Command::of(&req), Err(VelosError::ProtocolError(_))), "{:?}", command);
    }
    let stop = Request { id: 1, command: CommandCode::ProcessStop, payload: vec![1, 0, 0, 0, 15, 1] };
    match Command::of(&stop) {
        Err(VelosError::ProtocolError(m)) => assert_eq!(m, "truncated u32"),
        _ => panic!("expected a protocol error"),
    }
}

#[test]
fn responses_echo_the_request_id() {
    let req = bare_request(0xDEAD_BEEF, CommandCode::Ping);
    let mut table = ProcessTable::new();
    table.create(sample_payload("api"), "api").unwrap();
    let ring = LogRing::new(4);
    let responses: Vec<Response> = vec![
        reply_ok(&req, vec![1]),
        reply_streaming(&req, vec![2]),
        reply_error(&req, &VelosError::ConnectionTimeout),
        answer_ping(&req),
        answer_list(&req, &table, 0),
        answer_info(&req, &table, 0),
        answer_log_read(&req, &ring),
    ];
    for resp in responses {
        assert_eq!(resp.id, 0xDEAD_BEEF);
        let back = Response::decode(&resp.encode()).unwrap();
        assert_eq!(back.id, 0xDEAD_BEEF);
        assert_eq!(back.status, resp.status);
    }
    assert_eq!(answer_ping(&req).payload, b"pong");
    assert_eq!(reply_streaming(&req, vec![2]).status, ResponseStatus::Streaming);
}

#[test]
fn error_responses_carry_the_message() {
    let req = bare_request(1, CommandCode::ProcessInfo);
    let resp = reply_error(&req, &VelosError::ProcessNotFound("caf\u{e9}".into()));
    assert_eq!(resp.status, ResponseStatus::Error);
    assert_eq!(resp.error_message(), "process not found: caf\u{e9}");
    assert_eq!(
        velos::client::check_response(&resp).unwrap_err().to_string(),
        "protocol error: process not found: caf\u{e9}"
    );
}

#[test]
fn queries_are_answered_from_the_table() {
    let mut table = ProcessTable::new();
    let config = sample_payload("api");
    let policy = Policy::of(&config);
    let id = table.create(config, "api").unwrap();
    table.create(sample_payload("web"), "web").unwrap();
    let (r, _) = Runtime::new().on_start();
    table.set_runtime(id, r.on_spawn(&policy, 321, false, 1_000)).unwrap();

    let list = answer_list(&bare_request(1, CommandCode::ProcessList), &table, 4_000);
    assert_eq!(list.status, ResponseStatus::Okay);
    let procs = decode_process_list(&list.payload).unwrap();
    assert_eq!(procs.len(), 2);
    assert_eq!((procs[0].name.as_str(), procs[0].pid, procs[0].status_str(), procs[0].uptime_ms), ("api", 321, "running", 3_000));
    assert_eq!((procs[1].name.as_str(), procs[1].status_str()), ("web", "stopped"));

    let info = answer_info(&info_request(2, id), &table, 4_000);
    assert_eq!(info.status, ResponseStatus::Okay);
    let detail = decode_process_detail(&info.payload).unwrap();
    assert_eq!((detail.name.as_str(), detail.pid, detail.interpreter.as_str()), ("api", 321, "node"));

    let missing = answer_info(&info_request(3, 99), &table, 0);
    assert_eq!(missing.status, ResponseStatus::Error);
    assert_eq!(missing.error_message(), "process not found: 99");
    let broken = answer_info(&Request { id: 4, command: CommandCode::ProcessInfo, payload: vec![1] }, &table, 0);
    assert_eq!(broken.status, ResponseStatus::Error);
    assert_eq!(broken.error_message(), "protocol error: truncated u32");
}

#[test]
fn log_reads_are_answered_from_the_ring() {
    let mut ring = LogRing::new(10);
    for (ts, stream, msg) in [(3u64, 1u8, "c"), (1, 0, "a"), (2, 0, "b"), (3, 0, "d")] {
        ring.push(LogEntry { timestamp_ms: ts, level: 1, stream, message: msg.into() });
    }
    let resp = answer_log_read(&logs_request(1, 0, 3), &ring);
    assert_eq!(resp.status, ResponseStatus::Okay);
    let entries = decode_log_entries(&resp.payload).unwrap();
    assert_eq!(entries.iter().map(|e| e.message.as_str()).collect::<Vec<_>>(), vec!["a", "b", "d"]);
    let all = decode_log_entries(&answer_log_read(&logs_request(1, 0, 100), &ring).payload).unwrap();
    assert_eq!(all.iter().map(|e| e.message.as_str()).collect::<Vec<_>>(), vec!["a", "b", "d", "c"]);
    let broken = answer_log_read(&Request { id: 1, command: CommandCode::LogRead, payload: vec![0; 7] }, &ring);
    assert_eq!(broken.status, ResponseStatus::Error);
    assert_eq!(broken.error_message(), "protocol error: truncated u32");
}

#[test]
fn one_final_response_per_request() {
    let req = Request { id: 9, command: CommandCode::LogStream, payload: vec![] };
    let mut exchange = Exchange::new();
    assert_eq!(exchange, Exchange::Open);
    assert!(exchange.send(&reply_streaming(&req, vec![1])));
    assert!(exchange.send(&reply_streaming(&req, vec![2])));
    assert_eq!(exchange, Exchange::Open);
    assert!(exchange.send(&reply_ok(&req, vec![])));
    assert_eq!(exchange, Exchange::Closed);
    assert!(!exchange.send(&reply_ok(&req, vec![])));
    assert!(!exchange.send(&reply_streaming(&req, vec![])));
    assert!(!exchange.send(&reply_error(&req, &VelosError::ConnectionTimeout)));
    assert_eq!(exchange, Exchange::Closed);

    let mut failed = Exchange::new();
    assert!(failed.send(&reply_error(&req, &VelosError::ConnectionTimeout)));
    assert!(!failed.send(&reply_ok(&req, vec![])));
}

#[test]
fn log_files_are_named_after_the_process() {
    assert_eq!(log_file_name("api", 0), "api-out.log");
    assert_eq!(log_file_name("api", 1), "api-err.log");
    assert_eq!(log_file_name("api:3", 1), "api:3-err.log");
    assert_eq!(log_file_name("", 0), "-out.log");
    assert_eq!(log_file_name("api", 7), "api-out.log");
}
