use velos::metrics::{escape, format_metrics, write_help_type};
use velos::protocol::ProcessInfo;

fn process(id: u32, name: &str, status: u8, memory: u64, uptime_ms: u64, restarts: u32) -> ProcessInfo {
    ProcessInfo {
        id,
        name: name.to_string(),
        pid: 1000 + id,
        status,
        memory_bytes: memory,
        uptime_ms,
        restart_count: restarts,
    }
}

#[test]
fn test_format_metrics_empty() {
    let out = format_metrics(&[]);
    assert!(out.contains("velos_daemon_processes_total 0"));
}

#[test]
fn test_format_metrics_one_process() {
    let procs = vec![ProcessInfo {
        id: 0,
        name: "api".to_string(),
        pid: 1234,
        status: 1,
        memory_bytes: 47_185_920,
        uptime_ms: 86_400_000,
        restart_count: 3,
    }];
    let out = format_metrics(&procs);
    assert!(out.contains("velos_process_memory_bytes{name=\"api\",instance=\"0\"} 47185920"));
    assert!(out.contains("velos_process_uptime_seconds{name=\"api\",instance=\"0\"} 86400.000"));
    assert!(out.contains("velos_process_restart_total{name=\"api\",instance=\"0\"} 3"));
    assert!(out.contains("velos_process_status{name=\"api\",instance=\"0\"} 1"));
    assert!(out.contains("velos_daemon_processes_total 1"));
}

#[test]
fn test_escape_label() {
    assert_eq!(escape("hello\"world"), "hello\\\"world");
    assert_eq!(escape("line\nbreak"), "line\\nbreak");
}

#[test]
fn escape_doubles_backslashes_first() {
    assert_eq!(escape("a\\b"), "a\\\\b");
    assert_eq!(escape("\\\"\n"), "\\\\\\\"\\n");
    assert_eq!(escape(""), "");
    assert_eq!(escape("pl\u{e4}in"), "pl\u{e4}in");
    let sequential = |s: &str| s.replace('\\', "\\\\").replace('"', "\\\"").replace('\n', "\\n");
    for s in ["\\n", "\"\\\"", "a\nb\\\nc\"", "\\\\\\"] {
        assert_eq!(escape(s), sequential(s));
    }
}

#[test]
fn help_and_type_lines() {
    let mut out = String::from("x\n");
    write_help_type(&mut out, "m", "Some help", "gauge");
    assert_eq!(out, "x\n# HELP m Some help\n# TYPE m gauge\n");
}

#[test]
fn empty_exposition_is_exact() {
    let expected = "# HELP velos_process_cpu_percent CPU usage percentage\n\
# TYPE velos_process_cpu_percent gauge\n\
# HELP velos_process_memory_bytes Resident memory in bytes\n\
# TYPE velos_process_memory_bytes gauge\n\
# HELP velos_process_uptime_seconds Process uptime in seconds\n\
# TYPE velos_process_uptime_seconds gauge\n\
# HELP velos_process_restart_total Total restart count\n\
# TYPE velos_process_restart_total counter\n\
# HELP velos_process_status Process status (0=stopped, 1=online, 2=errored)\n\
# TYPE velos_process_status gauge\n\
# HELP velos_daemon_processes_total Number of managed processes\n\
# TYPE velos_daemon_processes_total gauge\n\
velos_daemon_processes_total 0\n";
    assert_eq!(format_metrics(&[]), expected);
}

#[test]
fn exposition_of_two_processes() {
    let procs = vec![process(7, "a\"b", 3, 1, 1234, 0), process(8, "w", 9, 2, 59, 4)];
    let out = format_metrics(&procs);
    let lines: Vec<&str> = out.lines().collect();
    assert_eq!(lines.len(), 12 + 5 * 2 + 1);
    assert_eq!(lines[2], "velos_process_cpu_percent{name=\"a\\\"b\",instance=\"7\"} 0");
    assert_eq!(lines[3], "velos_process_cpu_percent{name=\"w\",instance=\"8\"} 0");
    assert_eq!(lines[6], "velos_process_memory_bytes{name=\"a\\\"b\",instance=\"7\"} 1");
    assert_eq!(lines[10], "velos_process_uptime_seconds{name=\"a\\\"b\",instance=\"7\"} 1.234");
    assert_eq!(lines[11], "velos_process_uptime_seconds{name=\"w\",instance=\"8\"} 0.059");
    assert_eq!(lines[15], "velos_process_restart_total{name=\"w\",instance=\"8\"} 4");
    assert_eq!(lines[18], "velos_process_status{name=\"a\\\"b\",instance=\"7\"} 1");
    assert_eq!(lines[19], "velos_process_status{name=\"w\",instance=\"8\"} 0");
    assert_eq!(lines[22], "velos_daemon_processes_total 2");
}

#[test]
fn status_gauge_values() {
    for (status, gauge) in [(0u8, "0"), (1, "1"), (2, "2"), (3, "1"), (4, "0"), (255, "0")] {
        let out = format_metrics(&[process(1, "p", status, 0, 0, 0)]);
        let line = format!("velos_process_status{{name=\"p\",instance=\"1\"}} {}", gauge);
        assert!(out.contains(&line), "status {}", status);
    }
}

#[test]
fn uptime_seconds_match_float_formatting() {
    for ms in [0u64, 1, 9, 10, 99, 100, 999, 1000, 1001, 59_999, 86_400_000, 123_456_789_012] {
        let out = format_metrics(&[process(1, "p", 1, 0, ms, 0)]);
        let expected = format!(
            "velos_process_uptime_seconds{{name=\"p\",instance=\"1\"}} {:.3}\n",
            ms as f64 / 1000.0
        );
        assert!(out.contains(&expected), "{} ms", ms);
    }
}
