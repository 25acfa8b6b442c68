use velos::protocol::{
    decode_header, decode_log_entries, decode_process_detail, decode_process_list, encode_header,
    BinaryReader, BinaryWriter, CommandCode, DeletePayload, InfoPayload, LogReadPayload, Request,
    Response, ResponseStatus, RestartPayload, ScalePayload, ScaleResult, StartPayload,
    StartResult, StateLoadResult, StopPayload, HEADER_SIZE, MAGIC, VERSION,
};
use velos::VelosError;

fn sample_start_payload() -> StartPayload {
    StartPayload {
        name: "myapp".into(),
        script: "app.js".into(),
        cwd: "/tmp".into(),
        interpreter: None,
        kill_timeout_ms: 5000,
        autorestart: true,
        max_restarts: 15,
        min_uptime_ms: 1000,
        restart_delay_ms: 100,
        exp_backoff: false,
        max_memory_restart: 0,
        watch: false,
        watch_delay_ms: 0,
        watch_paths: String::new(),
        watch_ignore: String::new(),
        cron_restart: String::new(),
        wait_ready: false,
        listen_timeout_ms: 8000,
        shutdown_with_message: false,
        instances: 1,
    }
}

fn protocol_message(e: VelosError) -> String {
    match e {
        VelosError::ProtocolError(m) => m,
        other => panic!("expected a protocol error, got {:?}", other),
    }
}

#[test]
fn test_header_roundtrip() {
    let len = 12345u32;
    let header = encode_header(len);
    assert_eq!(header[0], 0x56);
    assert_eq!(header[1], 0x10);
    assert_eq!(header[2], VERSION);
    let decoded = decode_header(&header).unwrap();
    assert_eq!(decoded, len);
}

#[test]
fn test_header_bad_magic() {
    let mut header = encode_header(100);
    header[0] = 0xFF;
    assert!(decode_header(&header).is_err());
}

#[test]
fn test_request_encode() {
    let req = Request { id: 1, command: CommandCode::Ping, payload: vec![] };
    let bytes = req.encode().unwrap();
    assert_eq!(bytes.len(), 7 + 4 + 1);
    assert_eq!(bytes[0], 0x56);
    assert_eq!(bytes[1], 0x10);
}

#[test]
fn test_response_from_body() {
    let mut body = Vec::new();
    body.extend_from_slice(&42u32.to_le_bytes());
    body.push(ResponseStatus::Okay.code());
    body.extend_from_slice(b"pong");

    let resp = Response::from_body(&body).unwrap();
    assert_eq!(resp.id, 42);
    assert_eq!(resp.status, ResponseStatus::Okay);
    assert_eq!(&resp.payload, b"pong");
}

#[test]
fn test_binary_writer_reader_roundtrip() {
    let mut w = BinaryWriter::new();
    w.write_u32(0xDEADBEEF);
    w.write_string("test_string");
    w.write_u8(0x42);
    w.write_u64(9999999);

    let mut r = BinaryReader::new(&w.buf);
    assert_eq!(r.read_u32().unwrap(), 0xDEADBEEF);
    assert_eq!(r.read_string().unwrap(), "test_string");
    assert_eq!(r.read_u8().unwrap(), 0x42);
    assert_eq!(r.read_u64().unwrap(), 9999999);
}

#[test]
fn test_start_payload_encode() {
    let payload = sample_start_payload();
    let bytes = payload.encode();

    let mut r = BinaryReader::new(&bytes);
    assert_eq!(r.read_string().unwrap(), "myapp");
    assert_eq!(r.read_string().unwrap(), "app.js");
    assert_eq!(r.read_string().unwrap(), "/tmp");
    assert_eq!(r.read_string().unwrap(), ""); // no interpreter
    assert_eq!(r.read_u32().unwrap(), 5000);
    assert_eq!(r.read_u8().unwrap(), 1); // autorestart
    assert_eq!(r.read_i32().unwrap(), 15); // max_restarts
    assert_eq!(r.read_u64().unwrap(), 1000); // min_uptime_ms
    assert_eq!(r.read_u32().unwrap(), 100); // restart_delay_ms
    assert_eq!(r.read_u8().unwrap(), 0); // exp_backoff
    assert_eq!(r.read_u64().unwrap(), 0); // max_memory_restart
    assert_eq!(r.read_u8().unwrap(), 0); // watch
    assert_eq!(r.read_u32().unwrap(), 0); // watch_delay_ms
    assert_eq!(r.read_string().unwrap(), ""); // watch_paths
    assert_eq!(r.read_string().unwrap(), ""); // watch_ignore
    assert_eq!(r.read_string().unwrap(), ""); // cron_restart
    assert_eq!(r.read_u8().unwrap(), 0); // wait_ready
    assert_eq!(r.read_u32().unwrap(), 8000); // listen_timeout_ms
    assert_eq!(r.read_u8().unwrap(), 0); // shutdown_with_message
    assert_eq!(r.read_u32().unwrap(), 1); // instances
    assert_eq!(r.remaining(), 0);
}

fn sample_detail_bytes() -> Vec<u8> {
    let mut w = BinaryWriter::new();
    w.write_u32(1); // id
    w.write_string("myapp"); // name
    w.write_u32(1234); // pid
    w.write_u8(1); // status = running
    w.write_u64(50 * 1024 * 1024); // memory_bytes
    w.write_u64(120000); // uptime_ms
    w.write_u32(3); // restart_count
    w.write_u32(2); // consecutive_crashes
    w.write_u64(100000); // last_restart_ms
    w.write_string("app.js"); // script
    w.write_string("/tmp"); // cwd
    w.write_string("node"); // interpreter
    w.write_u32(5000); // kill_timeout_ms
    w.write_u8(1); // autorestart
    w.write_i32(15); // max_restarts
    w.write_u64(1000); // min_uptime_ms
    w.write_u32(100); // restart_delay_ms
    w.write_u8(0); // exp_backoff
    w.write_u64(150 * 1024 * 1024); // max_memory_restart
    w.write_u8(1); // watch
    w.write_string("0 0 * * *"); // cron_restart
    w.write_u8(1); // wait_ready
    w.write_u8(0); // shutdown_with_message
    w.buf
}

#[test]
fn test_process_detail_decode() {
    let detail = decode_process_detail(&sample_detail_bytes()).unwrap();
    assert_eq!(detail.id, 1);
    assert_eq!(detail.name, "myapp");
    assert_eq!(detail.pid, 1234);
    assert_eq!(detail.status_str(), "running");
    assert_eq!(detail.memory_bytes, 50 * 1024 * 1024);
    assert_eq!(detail.uptime_ms, 120000);
    assert_eq!(detail.restart_count, 3);
    assert_eq!(detail.consecutive_crashes, 2);
    assert_eq!(detail.last_restart_ms, 100000);
    assert_eq!(detail.script, "app.js");
    assert_eq!(detail.cwd, "/tmp");
    assert_eq!(detail.interpreter, "node");
    assert_eq!(detail.kill_timeout_ms, 5000);
    assert!(detail.autorestart);
    assert_eq!(detail.max_restarts, 15);
    assert_eq!(detail.min_uptime_ms, 1000);
    assert_eq!(detail.restart_delay_ms, 100);
    assert!(!detail.exp_backoff);
    assert_eq!(detail.max_memory_restart, 150 * 1024 * 1024);
    assert!(detail.watch);
    assert_eq!(detail.cron_restart, "0 0 * * *");
    assert!(detail.wait_ready);
    assert!(!detail.shutdown_with_message);
}

#[test]
fn test_process_list_decode() {
    let mut w = BinaryWriter::new();
    w.write_u32(1); // count
    w.write_u32(1); // id
    w.write_string("myapp"); // name
    w.write_u32(1234); // pid
    w.write_u8(1); // status = running
    w.write_u64(1024 * 1024); // memory
    w.write_u64(60000); // uptime
    w.write_u32(0); // restarts

    let procs = decode_process_list(&w.buf).unwrap();
    assert_eq!(procs.len(), 1);
    assert_eq!(procs[0].id, 1);
    assert_eq!(procs[0].name, "myapp");
    assert_eq!(procs[0].pid, 1234);
    assert_eq!(procs[0].status_str(), "running");
}

#[test]
fn constants_match_the_frame_layout() {
    assert_eq!(MAGIC, [0x56, 0x10]);
    assert_eq!(VERSION, 0x01);
    assert_eq!(HEADER_SIZE, 7);
    assert_eq!(encode_header(0x0403_0201), [0x56, 0x10, 0x01, 0x01, 0x02, 0x03, 0x04]);
}

#[test]
fn header_with_other_version_is_rejected() {
    let mut header = encode_header(5);
    header[2] = 0x02;
    let msg = protocol_message(decode_header(&header).unwrap_err());
    assert_eq!(msg, "unsupported protocol version: 2");
}

#[test]
fn header_with_other_magic_reports_both_bytes() {
    let header = [0xFF, 0x05, 0x01, 0, 0, 0, 0];
    let msg = protocol_message(decode_header(&header).unwrap_err());
    assert_eq!(msg, "invalid magic: [0xff, 0x05]");
    let header = [0x56, 0x11, 0x01, 0, 0, 0, 0];
    assert!(decode_header(&header).is_err());
}

#[test]
fn command_codes_have_their_wire_values() {
    let all = [
        (CommandCode::ProcessStart, 0x01u8),
        (CommandCode::ProcessStop, 0x02),
        (CommandCode::ProcessRestart, 0x03),
        (CommandCode::ProcessDelete, 0x04),
        (CommandCode::ProcessList, 0x05),
        (CommandCode::ProcessInfo, 0x06),
        (CommandCode::ProcessScale, 0x07),
        (CommandCode::LogRead, 0x10),
        (CommandCode::LogStream, 0x11),
        (CommandCode::MetricsGet, 0x20),
        (CommandCode::StateSave, 0x30),
        (CommandCode::StateLoad, 0x31),
        (CommandCode::Ping, 0x40),
        (CommandCode::Shutdown, 0x41),
    ];
    for (cmd, code) in all {
        assert_eq!(cmd.code(), code);
        assert_eq!(CommandCode::from_u8(code), Some(cmd));
    }
    assert_eq!(CommandCode::from_u8(0x00), None);
    assert_eq!(CommandCode::from_u8(0x08), None);
    assert_eq!(CommandCode::from_u8(0x42), None);
}

#[test]
fn response_status_codes() {
    assert_eq!(ResponseStatus::from_u8(0), Some(ResponseStatus::Okay));
    assert_eq!(ResponseStatus::from_u8(1), Some(ResponseStatus::Error));
    assert_eq!(ResponseStatus::from_u8(2), Some(ResponseStatus::Streaming));
    assert_eq!(ResponseStatus::from_u8(3), None);
    assert_eq!(ResponseStatus::Streaming.code(), 2);
    assert!(ResponseStatus::Okay.is_terminal());
    assert!(ResponseStatus::Error.is_terminal());
    assert!(!ResponseStatus::Streaming.is_terminal());
}

#[test]
fn request_frame_round_trip() {
    let payloads: [&[u8]; 4] = [b"", b"\x00", b"hello world", &[0xFF; 300]];
    for (i, payload) in payloads.iter().enumerate() {
        let req = Request {
            id: 0xA1B2_C3D4u32.wrapping_add(i as u32),
            command: CommandCode::LogRead,
            payload: payload.to_vec(),
        };
        let frame = req.encode().unwrap();
        assert_eq!(frame.len(), 7 + 5 + payload.len());
        let back = Request::decode(&frame).unwrap();
        assert_eq!(back.id, req.id);
        assert_eq!(back.command, CommandCode::LogRead);
        assert_eq!(&back.payload, payload);
    }
}

#[test]
fn request_frame_exact_bytes() {
    let req = Request { id: 0x01020304, command: CommandCode::Shutdown, payload: vec![9, 8] };
    assert_eq!(
        req.encode().unwrap(),
        vec![0x56, 0x10, 0x01, 7, 0, 0, 0, 0x04, 0x03, 0x02, 0x01, 0x41, 9, 8]
    );
}

#[test]
fn altered_frames_are_rejected() {
    let req = Request { id: 7, command: CommandCode::Ping, payload: vec![1, 2, 3] };
    let frame = req.encode().unwrap();
    for at in 0..3 {
        let mut bad = frame.clone();
        bad[at] ^= 0x01;
        assert!(Request::decode(&bad).is_err());
    }
    let mut unknown = frame.clone();
    unknown[11] = 0x7F;
    assert_eq!(protocol_message(Request::decode(&unknown).unwrap_err()), "unknown command: 127");
    assert_eq!(
        protocol_message(Request::decode(&frame[..frame.len() - 1]).unwrap_err()),
        "truncated body"
    );
    assert_eq!(protocol_message(Request::decode(&frame[..6]).unwrap_err()), "truncated header");
    assert_eq!(
        protocol_message(Request::from_body(&[1, 2, 3, 4]).unwrap_err()),
        "request body too short"
    );
}

#[test]
fn response_frame_round_trip_echoes_the_id() {
    let resp = Response::reply(77, ResponseStatus::Streaming, b"line".to_vec());
    let frame = resp.encode();
    let back = Response::decode(&frame).unwrap();
    assert_eq!(back.id, 77);
    assert_eq!(back.status, ResponseStatus::Streaming);
    assert_eq!(back.payload, b"line");
}

#[test]
fn response_body_errors() {
    assert_eq!(
        protocol_message(Response::from_body(&[0, 0, 0, 0]).unwrap_err()),
        "response body too short"
    );
    assert_eq!(
        protocol_message(Response::from_body(&[0, 0, 0, 0, 9]).unwrap_err()),
        "unknown response status: 9"
    );
}

#[test]
fn error_message_is_lossy_text() {
    let ok = Response { id: 1, status: ResponseStatus::Error, payload: b"no such process".to_vec() };
    assert_eq!(ok.error_message(), "no such process");
    let bad = Response { id: 1, status: ResponseStatus::Error, payload: vec![b'a', 0xFF, b'b'] };
    assert_eq!(bad.error_message(), "a\u{FFFD}b");
}

#[test]
fn writer_is_little_endian() {
    let mut w = BinaryWriter::new();
    w.write_u32(0x0A0B0C0D);
    w.write_u64(0x0102030405060708);
    w.write_i32(-2);
    w.write_string("h\u{e9}");
    assert_eq!(
        w.buf,
        vec![
            0x0D, 0x0C, 0x0B, 0x0A, 0x08, 0x07, 0x06, 0x05, 0x04, 0x03, 0x02, 0x01, 0xFE, 0xFF,
            0xFF, 0xFF, 3, 0, 0, 0, b'h', 0xC3, 0xA9,
        ]
    );
}

#[test]
fn reader_integer_extremes() {
    let mut w = BinaryWriter::new();
    w.write_i32(i32::MIN);
    w.write_i32(i32::MAX);
    w.write_i32(-1);
    w.write_u32(u32::MAX);
    w.write_u64(u64::MAX);
    let mut r = BinaryReader::new(&w.buf);
    assert_eq!(r.read_i32().unwrap(), i32::MIN);
    assert_eq!(r.read_i32().unwrap(), i32::MAX);
    assert_eq!(r.read_i32().unwrap(), -1);
    assert_eq!(r.read_u32().unwrap(), u32::MAX);
    assert_eq!(r.read_u64().unwrap(), u64::MAX);
    assert_eq!(r.remaining(), 0);
}

#[test]
fn reader_truncation_errors() {
    let mut r = BinaryReader::new(&[]);
    assert_eq!(protocol_message(r.read_u8().unwrap_err()), "truncated u8");
    let mut r = BinaryReader::new(&[1, 2, 3]);
    assert_eq!(protocol_message(r.read_u32().unwrap_err()), "truncated u32");
    assert_eq!(protocol_message(r.read_i32().unwrap_err()), "truncated i32");
    assert_eq!(protocol_message(r.read_u64().unwrap_err()), "truncated u64");
    assert_eq!(protocol_message(r.read_string().unwrap_err()), "truncated u32");
    assert_eq!(r.remaining(), 3);
    let mut r = BinaryReader::new(&[5, 0, 0, 0, b'a', b'b']);
    assert_eq!(protocol_message(r.read_string().unwrap_err()), "truncated string");
    assert_eq!(r.remaining(), 2);
    let mut r = BinaryReader::new(&[2, 0, 0, 0, 0xC3, 0x28, 7]);
    let msg = protocol_message(r.read_string().unwrap_err());
    assert!(msg.starts_with("invalid utf8: "));
    assert!(msg.len() > "invalid utf8: ".len());
    assert_eq!(r.remaining(), 3);
}

#[test]
fn read_raw_takes_the_rest() {
    let mut r = BinaryReader::new(&[1, 2, 3, 4, 5]);
    assert_eq!(r.read_u8().unwrap(), 1);
    assert_eq!(r.read_raw(), vec![2, 3, 4, 5]);
    assert_eq!(r.remaining(), 0);
    assert_eq!(r.read_raw(), Vec::<u8>::new());
}

#[test]
fn start_payload_with_interpreter() {
    let mut payload = sample_start_payload();
    payload.interpreter = Some("node".into());
    payload.max_restarts = -1;
    payload.shutdown_with_message = true;
    let bytes = payload.encode();
    let mut r = BinaryReader::new(&bytes);
    r.read_string().unwrap();
    r.read_string().unwrap();
    r.read_string().unwrap();
    assert_eq!(r.read_string().unwrap(), "node");
    r.read_u32().unwrap();
    r.read_u8().unwrap();
    assert_eq!(r.read_i32().unwrap(), -1);
}

#[test]
fn small_payloads_encode() {
    assert_eq!(
        ScalePayload { name: "api".into(), target_count: 4 }.encode(),
        vec![3, 0, 0, 0, b'a', b'p', b'i', 4, 0, 0, 0]
    );
    assert_eq!(
        StopPayload { process_id: 2, signal: 15, timeout_ms: 5000 }.encode(),
        vec![2, 0, 0, 0, 15, 0x88, 0x13, 0, 0]
    );
    assert_eq!(DeletePayload { process_id: 258 }.encode(), vec![2, 1, 0, 0]);
    assert_eq!(RestartPayload { process_id: 1 }.encode(), vec![1, 0, 0, 0]);
    assert_eq!(InfoPayload { process_id: 3 }.encode(), vec![3, 0, 0, 0]);
    assert_eq!(
        LogReadPayload { process_id: 1, lines: 50 }.encode(),
        vec![1, 0, 0, 0, 50, 0, 0, 0]
    );
}

#[test]
fn results_decode() {
    let scale = ScaleResult::decode(&[2, 0, 0, 0, 0, 0, 0, 0]).unwrap();
    assert_eq!((scale.started, scale.stopped), (2, 0));
    assert_eq!(
        protocol_message(ScaleResult::decode(&[2, 0, 0, 0]).unwrap_err()),
        "truncated u32"
    );
    assert_eq!(StartResult::decode(&[9, 0, 0, 0]).unwrap().id, 9);
    assert!(StartResult::decode(&[9, 0]).is_err());
    assert_eq!(StateLoadResult::decode(&[]).unwrap().count, 0);
    assert_eq!(StateLoadResult::decode(&[3, 0, 0, 0]).unwrap().count, 3);
    assert!(StateLoadResult::decode(&[3]).is_err());
}

#[test]
fn truncated_detail_is_rejected_at_every_length() {
    let bytes = sample_detail_bytes();
    for n in 0..bytes.len() {
        assert!(decode_process_detail(&bytes[..n]).is_err(), "prefix of {} bytes", n);
    }
    assert!(decode_process_detail(&bytes).is_ok());
}

#[test]
fn process_list_with_missing_entry() {
    let mut w = BinaryWriter::new();
    w.write_u32(2);
    w.write_u32(1);
    w.write_string("a");
    w.write_u32(10);
    w.write_u8(0);
    w.write_u64(0);
    w.write_u64(0);
    w.write_u32(0);
    assert_eq!(protocol_message(decode_process_list(&w.buf).unwrap_err()), "truncated u32");
    assert!(decode_process_list(&[0, 0, 0, 0]).unwrap().is_empty());
    assert!(decode_process_list(&[]).is_err());
}

#[test]
fn status_names() {
    let mut w = BinaryWriter::new();
    w.write_u32(5);
    for status in [0u8, 1, 2, 3, 9] {
        w.write_u32(status as u32);
        w.write_string("p");
        w.write_u32(0);
        w.write_u8(status);
        w.write_u64(0);
        w.write_u64(0);
        w.write_u32(0);
    }
    let procs = decode_process_list(&w.buf).unwrap();
    let names: Vec<&str> = procs.iter().map(|p| p.status_str()).collect();
    assert_eq!(names, vec!["stopped", "running", "errored", "starting", "unknown"]);
}

#[test]
fn log_entries_decode() {
    let mut w = BinaryWriter::new();
    w.write_u32(2);
    w.write_u64(1000);
    w.write_u8(1);
    w.write_u8(0);
    w.write_string("started");
    w.write_u64(2000);
    w.write_u8(3);
    w.write_u8(1);
    w.write_string("failed");
    let entries = decode_log_entries(&w.buf).unwrap();
    assert_eq!(entries.len(), 2);
    assert_eq!(entries[0].timestamp_ms, 1000);
    assert_eq!(entries[0].level, 1);
    assert_eq!(entries[0].stream, 0);
    assert_eq!(entries[0].message, "started");
    assert_eq!(entries[1].timestamp_ms, 2000);
    assert_eq!(entries[1].level, 3);
    assert_eq!(entries[1].stream, 1);
    assert_eq!(entries[1].message, "failed");
    assert!(decode_log_entries(&w.buf[..w.buf.len() - 1]).is_err());
}

#[test]
fn error_texts() {
    assert_eq!(VelosError::DaemonNotRunning.to_string(), "daemon is not running");
    assert_eq!(VelosError::ConnectionFailed("refused".into()).to_string(), "connection failed: refused");
    assert_eq!(VelosError::ConnectionTimeout.to_string(), "connection timeout");
    assert_eq!(VelosError::ProcessNotFound("api".into()).to_string(), "process not found: api");
    assert_eq!(VelosError::ProtocolError("bad".into()).to_string(), "protocol error: bad");
    assert_eq!(VelosError::Serialize("x".into()).to_string(), "serialization error: x");
    assert_eq!(VelosError::Io("disk full".into()).to_string(), "disk full");
}
