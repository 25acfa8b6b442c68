use velos::log_engine::anomaly::{compute_minute_metrics, AnomalySeverity};
use velos::log_engine::classifier::Classifier;
use velos::log_engine::dedup::{format_dedup_result, normalize, DedupEngine, DedupResult};
use velos::log_engine::format::{
    format_plain, format_plain_with_level, format_structured, format_timestamp,
    format_timestamp_short,
};
use velos::log_engine::pattern::{detect_trend, PatternDetector, Trend};
use velos::log_engine::summary::{
    compute_health_score, format_duration, format_period, format_summary, generate_summary,
    LevelCounts, LogSummary, PatternSummary,
};
use velos::log_engine::{LogLevel, LogProcessor, Pipeline, ProcessedEntry};
use velos::LogEntry;

fn make_processed(msg: &str, level: LogLevel, stream: u8, ts: u64) -> ProcessedEntry {
    ProcessedEntry { timestamp_ms: ts, level, stream, message: msg.to_string() }
}

fn make_entry(msg: &str, level: u8, stream: u8) -> LogEntry {
    LogEntry { timestamp_ms: 1000, level, stream, message: msg.to_string() }
}

fn make_error(msg: &str, ts: u64) -> ProcessedEntry {
    make_processed(msg, LogLevel::Error, 0, ts)
}

#[test]
fn test_format_structured() {
    let e = make_processed("Server started", LogLevel::Info, 0, 1707734400000);
    let json = format_structured(&e, 12345);
    let v: serde_json::Value = serde_json::from_str(&json).unwrap();
    assert_eq!(v["lvl"], "info");
    assert_eq!(v["pid"], 12345);
    assert_eq!(v["msg"], "Server started");
    assert_eq!(v["src"], "stdout");
}

#[test]
fn test_format_plain() {
    // 10:05:03 = 36303 seconds = 36303000 ms
    let e = make_processed("hello", LogLevel::Info, 0, 36303000);
    let s = format_plain(&e);
    assert_eq!(s, "[out|10:05:03] hello");
}

#[test]
fn test_format_plain_stderr() {
    let e = make_processed("oops", LogLevel::Error, 1, 0);
    let s = format_plain(&e);
    assert!(s.starts_with("[err|"));
}

#[test]
fn test_format_plain_with_level() {
    let e = make_processed("warning msg", LogLevel::Warn, 0, 0);
    let s = format_plain_with_level(&e);
    assert!(s.starts_with("[WARN|out|"));
}

#[test]
fn structured_line_is_exact_and_escaped() {
    let e = make_processed("say \"hi\"\n\\", LogLevel::Fatal, 1, 17);
    assert_eq!(
        format_structured(&e, 0),
        "{\"lvl\":\"fatal\",\"msg\":\"say \\\"hi\\\"\\n\\\\\",\"pid\":0,\"src\":\"stderr\",\"ts\":17}"
    );
    let v: serde_json::Value = serde_json::from_str(&format_structured(&e, 0)).unwrap();
    assert_eq!(v["msg"], "say \"hi\"\n\\");
    assert_eq!(v["ts"], 17);
}

#[test]
fn plain_lines_are_exact() {
    let e = make_processed("x", LogLevel::Debug, 7, 86_399_999);
    assert_eq!(format_plain(&e), "[out|23:59:59] x");
    assert_eq!(format_plain_with_level(&e), "[DEBUG|out|23:59:59] x");
    let e = make_processed("", LogLevel::Fatal, 1, 86_400_000 + 61_000);
    assert_eq!(format_plain_with_level(&e), "[FATAL|err|00:01:01] ");
    assert_eq!(format_timestamp(3_723_004), "01:02:03");
    assert_eq!(format_timestamp_short(0), "00:00:00");
    assert_eq!(format_timestamp_short(u64::MAX), "14:25:51");
}

#[test]
fn levels_numbers_and_names() {
    let all = [
        (LogLevel::Debug, 0u8, "debug", "DEBUG"),
        (LogLevel::Info, 1, "info", "INFO"),
        (LogLevel::Warn, 2, "warn", "WARN"),
        (LogLevel::Error, 3, "error", "ERROR"),
        (LogLevel::Fatal, 4, "fatal", "FATAL"),
    ];
    for (level, rank, name, upper) in all {
        assert_eq!(LogLevel::from_u8(rank), level);
        assert_eq!(level.rank(), rank);
        assert_eq!(level.as_str(), name);
        assert_eq!(level.as_upper_str(), upper);
        assert_eq!(level.as_str().to_uppercase(), upper);
    }
    assert_eq!(LogLevel::from_u8(5), LogLevel::Info);
    assert_eq!(LogLevel::from_u8(255), LogLevel::Info);
    assert_eq!(LogLevel::Warn.higher(LogLevel::Error), LogLevel::Error);
    assert_eq!(LogLevel::Error.higher(LogLevel::Warn), LogLevel::Error);
    assert_eq!(AnomalySeverity::Warning.as_str(), "warning");
    assert_eq!(AnomalySeverity::Critical.as_str(), "critical");
}

#[test]
fn processed_entry_from_raw() {
    let raw = LogEntry { timestamp_ms: 5, level: 1, stream: 1, message: "m".into() };
    let p = ProcessedEntry::from_raw(&raw, LogLevel::Warn);
    assert_eq!((p.timestamp_ms, p.level, p.stream, p.message.as_str()), (5, LogLevel::Warn, 1, "m"));
}

struct Tag(&'static str);

impl LogProcessor for Tag {
    fn process(&mut self, entries: &[ProcessedEntry]) -> Vec<ProcessedEntry> {
        entries
            .iter()
            .map(|e| make_processed(&format!("{}{}", e.message, self.0), e.level, e.stream, e.timestamp_ms))
            .collect()
    }
}

struct DropFirst;

impl LogProcessor for DropFirst {
    fn process(&mut self, entries: &[ProcessedEntry]) -> Vec<ProcessedEntry> {
        entries.iter().skip(1).map(|e| e.duplicate()).collect()
    }
}

#[test]
fn pipeline_runs_stages_in_order() {
    let entries = vec![make_error("a", 1), make_error("b", 2)];
    let mut empty: Pipeline<Box<dyn LogProcessor>> = Pipeline::new();
    let same = empty.run(&entries);
    assert_eq!(same.len(), 2);
    assert_eq!(same[1].message, "b");
    assert_eq!(same[1].timestamp_ms, 2);

    let mut pipeline: Pipeline<Box<dyn LogProcessor>> = Pipeline::default();
    pipeline.add_stage(Box::new(Tag("-1")));
    pipeline.add_stage(Box::new(DropFirst));
    pipeline.add_stage(Box::new(Tag("-2")));
    let out = pipeline.run(&entries);
    assert_eq!(out.len(), 1);
    assert_eq!(out[0].message, "b-1-2");
}

// ----------------------------------------------------------------------
// Classifier
// ----------------------------------------------------------------------

#[test]
fn test_classify_error() {
    let c = Classifier::with_defaults();
    let e = make_entry("Connection error: ECONNREFUSED", 1, 0);
    assert_eq!(c.classify(&e), LogLevel::Error);
}

#[test]
fn test_classify_warning() {
    let c = Classifier::with_defaults();
    let e = make_entry("Deprecated API called", 1, 0);
    assert_eq!(c.classify(&e), LogLevel::Warn);
}

#[test]
fn test_classify_fatal() {
    let c = Classifier::with_defaults();
    let e = make_entry("FATAL: out of memory, panic", 1, 0);
    assert_eq!(c.classify(&e), LogLevel::Fatal);
}

#[test]
fn test_classify_debug() {
    let c = Classifier::with_defaults();
    let e = make_entry("[debug] entering function foo", 1, 0);
    assert_eq!(c.classify(&e), LogLevel::Debug);
}

#[test]
fn test_classify_info_default() {
    let c = Classifier::with_defaults();
    let e = make_entry("Server started on port 3000", 1, 0);
    assert_eq!(c.classify(&e), LogLevel::Info);
}

#[test]
fn test_classify_stderr_floor() {
    let c = Classifier::with_defaults();
    // Normal message on stderr → at least Warn
    let e = make_entry("some output on stderr", 1, 1);
    assert_eq!(c.classify(&e), LogLevel::Warn);
}

#[test]
fn test_classify_json_aware() {
    let c = Classifier::with_defaults();
    let e = make_entry(r#"{"level":"error","msg":"db connection lost"}"#, 1, 0);
    assert_eq!(c.classify(&e), LogLevel::Error);
}

#[test]
fn test_classify_respects_existing_level() {
    let c = Classifier::with_defaults();
    // Daemon already set level=3 (error)
    let e = make_entry("something", 3, 0);
    assert_eq!(c.classify(&e), LogLevel::Error);
}

#[test]
fn test_custom_rule() {
    let mut c = Classifier::with_defaults();
    c.add_rule(r"SEGFAULT", LogLevel::Fatal, 15);
    let e = make_entry("SEGFAULT at 0x0000", 1, 0);
    assert_eq!(c.classify(&e), LogLevel::Fatal);
}

#[test]
fn classify_json_level_names() {
    let c = Classifier::with_defaults();
    let level = |json: &str| c.classify(&make_entry(json, 1, 1));
    assert_eq!(level(r#"{"level":"PANIC"}"#), LogLevel::Fatal);
    assert_eq!(level(r#"{"level":"Critical"}"#), LogLevel::Fatal);
    assert_eq!(level(r#"{"level":"err"}"#), LogLevel::Error);
    assert_eq!(level(r#"{"level":"Warning"}"#), LogLevel::Warn);
    assert_eq!(level(r#"{"level":"trace"}"#), LogLevel::Debug);
    assert_eq!(level(r#"{"level":"notice","msg":"fatal"}"#), LogLevel::Info);
    // No string member `level`: the rules decide, with the stderr floor.
    assert_eq!(level(r#"{"level":3,"msg":"all fine"}"#), LogLevel::Warn);
    assert_eq!(level(r#"{"msg":"error"}"#), LogLevel::Error);
    assert_eq!(level(r#"{"level":"error""#), LogLevel::Error);
    assert_eq!(level(r#" {"level":"fatal"}"#), LogLevel::Fatal);
    assert_eq!(c.classify(&make_entry(r#"["level","debug"]"#, 1, 0)), LogLevel::Debug);
}

#[test]
fn classify_rules_in_priority_order() {
    let c = Classifier::with_defaults();
    assert_eq!(c.classify(&make_entry("debug: fatal error", 1, 0)), LogLevel::Fatal);
    assert_eq!(c.classify(&make_entry("warning: failed", 1, 0)), LogLevel::Error);
    assert_eq!(c.classify(&make_entry("verbose warning", 1, 0)), LogLevel::Warn);
    assert_eq!(c.classify(&make_entry("debug output", 1, 1)), LogLevel::Warn);
    assert_eq!(c.classify(&make_entry("terror", 1, 0)), LogLevel::Info);
    assert_eq!(c.classify(&make_entry("anything", 0, 1)), LogLevel::Debug);
    assert_eq!(c.classify(&make_entry("fatal", 9, 0)), LogLevel::Info);
    assert_eq!(c.classify(&make_entry("", 1, 0)), LogLevel::Info);

    let none = Classifier::empty();
    assert_eq!(none.classify(&make_entry("fatal error", 1, 0)), LogLevel::Info);
    assert_eq!(none.classify(&make_entry("fatal error", 1, 1)), LogLevel::Warn);
}

#[test]
fn added_rules_are_ordered_by_priority() {
    let mut c = Classifier::empty();
    c.add_rule("x", LogLevel::Debug, 5);
    c.add_rule("x", LogLevel::Error, 5);
    assert_eq!(c.classify(&make_entry("x", 1, 0)), LogLevel::Debug);
    c.add_rule("x", LogLevel::Fatal, 6);
    assert_eq!(c.classify(&make_entry("x", 1, 0)), LogLevel::Fatal);
    c.add_rule("y(", LogLevel::Fatal, 200);
    assert_eq!(c.classify(&make_entry("y(", 1, 0)), LogLevel::Info);
    let mut d = Classifier::with_defaults();
    d.add_rule("error", LogLevel::Debug, 8);
    assert_eq!(d.classify(&make_entry("error", 1, 0)), LogLevel::Error);
    d.add_rule("error", LogLevel::Debug, 9);
    assert_eq!(d.classify(&make_entry("error", 1, 0)), LogLevel::Debug);
}

#[test]
fn classify_batch_keeps_entries() {
    let c = Classifier::with_defaults();
    let raw = vec![
        LogEntry { timestamp_ms: 1, level: 1, stream: 0, message: "ok".into() },
        LogEntry { timestamp_ms: 2, level: 1, stream: 1, message: "failed".into() },
        LogEntry { timestamp_ms: 3, level: 4, stream: 0, message: "ok".into() },
    ];
    let out = c.classify_batch(&raw);
    let got: Vec<(u64, LogLevel, u8, &str)> =
        out.iter().map(|e| (e.timestamp_ms, e.level, e.stream, e.message.as_str())).collect();
    assert_eq!(
        got,
        vec![(1, LogLevel::Info, 0, "ok"), (2, LogLevel::Error, 1, "failed"), (3, LogLevel::Fatal, 0, "ok")]
    );
}

// ----------------------------------------------------------------------
// Dedup
// ----------------------------------------------------------------------

#[test]
fn test_normalize_ip() {
    assert_eq!(normalize("Connection to 192.168.1.5:5432 failed"), "Connection to <IP> failed");
}

#[test]
fn test_normalize_uuid() {
    assert_eq!(
        normalize("Request 550e8400-e29b-41d4-a716-446655440000 failed"),
        "Request <UUID> failed"
    );
}

#[test]
fn test_normalize_numbers() {
    assert_eq!(normalize("Processed 1234 items in 567ms"), "Processed <N> items in <N>ms");
}

#[test]
fn test_normalize_hex() {
    assert_eq!(normalize("Segfault at 0xDEADBEEF"), "Segfault at <HEX>");
}

#[test]
fn test_dedup_groups_similar() {
    let mut engine = DedupEngine::with_defaults();
    let entries = vec![
        make_error("Connection to 192.168.1.1:5432 failed", 1000),
        make_error("Connection to 10.0.0.5:5432 failed", 2000),
        make_error("Connection to 172.16.0.1:5432 failed", 3000),
    ];
    let results = engine.deduplicate(&entries);
    assert_eq!(results.len(), 1);
    assert_eq!(results[0].count, 3);
    assert!(results[0].template.contains("<IP>"));
}

#[test]
fn test_dedup_separates_different() {
    let mut engine = DedupEngine::with_defaults();
    let entries = vec![
        make_error("Connection failed", 1000),
        make_processed("Server started", LogLevel::Info, 0, 2000),
    ];
    let results = engine.deduplicate(&entries);
    assert_eq!(results.len(), 2);
}

#[test]
fn normalize_order_of_placeholders() {
    assert_eq!(normalize("no variables here 7"), "no variables here 7");
    assert_eq!(normalize("id 0x1F and 0x20"), "id <HEX> and <HEX>");
    assert_eq!(normalize("10.0.0.1 10.0.0.2:80"), "<IP> <IP>");
    assert_eq!(normalize("port 80 and 8080"), "port <N> and <N>");
    assert_eq!(normalize(""), "");
}

#[test]
fn dedup_orders_by_count_then_first_seen() {
    let mut engine = DedupEngine::new(60);
    let entries = vec![
        make_processed("alpha 11", LogLevel::Info, 0, 1000),
        make_processed("beta 22", LogLevel::Warn, 0, 1100),
        make_processed("gamma", LogLevel::Info, 0, 1200),
        make_processed("beta 33", LogLevel::Error, 0, 1300),
        make_processed("beta 44", LogLevel::Debug, 0, 1400),
        make_processed("alpha 55", LogLevel::Info, 0, 1500),
        make_processed("delta", LogLevel::Info, 0, 1600),
    ];
    let results = engine.deduplicate(&entries);
    let got: Vec<(&str, u64, u64, u64, LogLevel, &str)> = results
        .iter()
        .map(|r| (r.template.as_str(), r.count, r.first_seen_ms, r.last_seen_ms, r.level, r.sample.as_str()))
        .collect();
    assert_eq!(
        got,
        vec![
            ("beta <N>", 3, 1100, 1400, LogLevel::Error, "beta 22"),
            ("alpha <N>", 2, 1000, 1500, LogLevel::Info, "alpha 11"),
            ("gamma", 1, 1200, 1200, LogLevel::Info, "gamma"),
            ("delta", 1, 1600, 1600, LogLevel::Info, "delta"),
        ]
    );
    // A second run forgets the first.
    let again = engine.deduplicate(&entries[..1]);
    assert_eq!(again.len(), 1);
    assert_eq!(again[0].count, 1);
    assert!(engine.deduplicate(&[]).is_empty());
}

#[test]
fn dedup_window_restarts_a_group() {
    let mut engine = DedupEngine::new(1);
    let entries = vec![
        make_error("job 10 done", 1000),
        make_error("job 11 done", 2000),
        make_error("job 12 done", 3001),
        make_error("job 13 done", 3500),
        make_error("job 14 done", 100),
    ];
    let results = engine.deduplicate(&entries);
    assert_eq!(results.len(), 1);
    assert_eq!(results[0].count, 3);
    assert_eq!(results[0].first_seen_ms, 3001);
    assert_eq!(results[0].last_seen_ms, 100);
    assert_eq!(results[0].sample, "job 12 done");
}

#[test]
fn dedup_result_display() {
    let one = DedupResult {
        template: "t".into(),
        count: 1,
        first_seen_ms: 0,
        last_seen_ms: 0,
        level: LogLevel::Info,
        sample: "only once".into(),
    };
    assert_eq!(format_dedup_result(&one), "only once");
    let many = DedupResult { count: 12, first_seen_ms: 3_600_000, last_seen_ms: 3_661_000, ..one };
    assert_eq!(format_dedup_result(&many), "only once (x12, first: 01:00:00, last: 01:01:01)");
}

// ----------------------------------------------------------------------
// Patterns
// ----------------------------------------------------------------------

#[test]
fn test_detect_patterns() {
    let detector = PatternDetector::new(3, 60);
    let entries: Vec<ProcessedEntry> = (0..10)
        .map(|i| make_error(&format!("Connection to 10.0.0.{}:5432 failed", i), 1000 + i * 1000))
        .collect();
    let patterns = detector.detect(&entries);
    assert_eq!(patterns.len(), 1);
    assert_eq!(patterns[0].frequency, 10);
    assert!(patterns[0].template.contains("<IP>"));
}

#[test]
fn test_min_frequency_filter() {
    let detector = PatternDetector::new(5, 60);
    let entries = vec![make_error("rare event", 1000), make_error("rare event", 2000)];
    let patterns = detector.detect(&entries);
    assert!(patterns.is_empty()); // count=2 < min_frequency=5
}

#[test]
fn test_trend_rising() {
    let detector = PatternDetector::new(2, 100);
    // All entries in second half → rising
    let entries: Vec<ProcessedEntry> =
        (0..10).map(|i| make_error("same error", 80000 + i * 1000)).collect();
    let patterns = detector.detect(&entries);
    assert_eq!(patterns.len(), 1);
    assert_eq!(patterns[0].trend, Trend::Rising);
}

#[test]
fn test_trend_declining() {
    let detector = PatternDetector::new(2, 100);
    // All entries in first half → declining
    let entries: Vec<ProcessedEntry> =
        (0..10).map(|i| make_error("old error", 10000 + i * 1000)).collect();
    let patterns = detector.detect(&entries);
    assert_eq!(patterns.len(), 1);
    assert_eq!(patterns[0].trend, Trend::Declining);
}

#[test]
fn test_top_n() {
    let detector = PatternDetector::new(1, 60);
    let mut entries = Vec::new();
    for i in 0..20 {
        entries.push(make_error("frequent error", 1000 + i * 100));
    }
    for i in 0..5 {
        entries.push(make_error("rare error", 1000 + i * 100));
    }
    let top = detector.detect_top_n(&entries, 1);
    assert_eq!(top.len(), 1);
    assert_eq!(top[0].frequency, 20);
}

fn float_trend(first_half: u32, second_half: u32) -> Trend {
    if first_half == 0 && second_half == 0 {
        return Trend::Stable;
    }
    let total = first_half as u64 + second_half as u64;
    if total < 4 {
        return Trend::Stable;
    }
    let ratio = second_half as f64 / total as f64;
    if ratio > 0.65 {
        Trend::Rising
    } else if ratio < 0.35 {
        Trend::Declining
    } else {
        Trend::Stable
    }
}

#[test]
fn trend_thresholds() {
    assert_eq!(detect_trend(0, 0), Trend::Stable);
    assert_eq!(detect_trend(0, 3), Trend::Stable);
    assert_eq!(detect_trend(0, 4), Trend::Rising);
    assert_eq!(detect_trend(4, 0), Trend::Declining);
    assert_eq!(detect_trend(7, 13), Trend::Stable);
    assert_eq!(detect_trend(13, 7), Trend::Stable);
    assert_eq!(detect_trend(69, 131), Trend::Rising);
    assert_eq!(detect_trend(131, 69), Trend::Declining);
    assert_eq!(detect_trend(u32::MAX, u32::MAX), Trend::Stable);
    assert_eq!(detect_trend(1, u32::MAX), Trend::Rising);
    for first in 0..60u32 {
        for second in 0..60u32 {
            assert_eq!(detect_trend(first, second), float_trend(first, second), "{} {}", first, second);
        }
    }
    for k in [1u32, 3, 1000, 50_000_000, 214_748_364] {
        for (a, b) in [(7 * k, 13 * k), (13 * k, 7 * k), (7 * k - 1, 13 * k), (7 * k, 13 * k + 1), (13 * k + 1, 7 * k)] {
            assert_eq!(detect_trend(a, b), float_trend(a, b), "{} {}", a, b);
        }
    }
    assert_eq!(Trend::Rising.as_str(), "rising");
    assert_eq!(Trend::Stable.as_str(), "stable");
    assert_eq!(Trend::Declining.as_str(), "declining");
}

#[test]
fn detect_window_and_order() {
    let detector = PatternDetector::new(2, 10);
    let mut entries = vec![
        make_processed("too old 11", LogLevel::Fatal, 0, 999),
        make_processed("too old 12", LogLevel::Fatal, 0, 4_999),
        make_processed("b 10", LogLevel::Info, 0, 5_000),
        make_processed("a 10", LogLevel::Warn, 0, 6_000),
        make_processed("b 11", LogLevel::Error, 0, 9_999),
        make_processed("a 11", LogLevel::Info, 0, 10_000),
        make_processed("once", LogLevel::Info, 0, 11_000),
        make_processed("c 10", LogLevel::Info, 0, 12_000),
        make_processed("c 11", LogLevel::Info, 0, 13_000),
        make_processed("c 12", LogLevel::Debug, 0, 15_000),
    ];
    let patterns = detector.detect(&entries);
    let got: Vec<(&str, u32, LogLevel, u64, u64, Trend)> = patterns
        .iter()
        .map(|p| (p.template.as_str(), p.frequency, p.level, p.first_seen_ms, p.last_seen_ms, p.trend))
        .collect();
    assert_eq!(
        got,
        vec![
            ("c <N>", 3, LogLevel::Info, 12_000, 15_000, Trend::Stable),
            ("b <N>", 2, LogLevel::Error, 5_000, 9_999, Trend::Stable),
            ("a <N>", 2, LogLevel::Warn, 6_000, 10_000, Trend::Stable),
        ]
    );
    assert_eq!(detector.detect_top_n(&entries, 2).len(), 2);
    assert_eq!(detector.detect_top_n(&entries, 0).len(), 0);
    assert_eq!(detector.detect_top_n(&entries, 9).len(), 3);
    assert!(detector.detect(&[]).is_empty());
    entries.truncate(6);
    assert_eq!(detector.detect(&entries).len(), 3);
    assert_eq!(detector.detect(&entries)[0].template, "too old <N>");
    let defaults = PatternDetector::with_defaults();
    assert!(defaults.detect(&entries).is_empty());
}

// ----------------------------------------------------------------------
// Summary
// ----------------------------------------------------------------------

#[test]
fn test_health_score_perfect() {
    assert_eq!(compute_health_score(0, 0, 0), 100);
}

#[test]
fn test_health_score_errors() {
    // 10 errors * 5 = 50 penalty
    assert_eq!(compute_health_score(10, 0, 0), 50);
}

#[test]
fn test_health_score_mixed() {
    // 5 errors * 5 + 2 anomalies * 10 + 3 restarts * 3 = 25 + 20 + 9 = 54
    assert_eq!(compute_health_score(5, 2, 3), 46);
}

#[test]
fn test_health_score_clamped() {
    assert_eq!(compute_health_score(100, 100, 100), 0);
}

#[test]
fn test_generate_summary() {
    let entries = vec![
        make_processed("ok", LogLevel::Info, 0, 1000),
        make_processed("db failed", LogLevel::Error, 0, 2000),
        make_processed("recovered", LogLevel::Info, 0, 3000),
    ];
    let summary = generate_summary("test-app", &entries, &[], 0, 0);
    assert_eq!(summary.process_name, "test-app");
    assert_eq!(summary.total_lines, 3);
    assert_eq!(summary.last_error.as_deref(), Some("db failed"));
    assert_eq!(summary.health_score, 95); // 1 error * 5 = 5 penalty
}

#[test]
fn test_format_summary() {
    let summary = LogSummary {
        process_name: "api".into(),
        period_start_ms: 0,
        period_end_ms: 3600000,
        total_lines: 5000,
        by_level: LevelCounts { debug: 0, info: 4990, warn: 0, error: 10, fatal: 0 },
        top_patterns: vec![],
        anomaly_count: 0,
        last_error: Some("connection refused".into()),
        last_error_ms: Some(3500000),
        health_score: 50,
    };
    let output = format_summary(&summary);
    assert!(output.contains("Health: 50/100"));
    assert!(output.contains("Errors: 10"));
    assert!(output.contains("connection refused"));
}

#[test]
fn health_score_edges() {
    assert_eq!(compute_health_score(19, 0, 0), 5);
    assert_eq!(compute_health_score(20, 0, 0), 0);
    assert_eq!(compute_health_score(0, 9, 0), 10);
    assert_eq!(compute_health_score(0, 10, 0), 0);
    assert_eq!(compute_health_score(0, 0, 33), 1);
    assert_eq!(compute_health_score(0, 0, 34), 0);
    assert_eq!(compute_health_score(19, 9, 33), 0);
    assert_eq!(compute_health_score(1, 1, 1), 82);
    assert_eq!(compute_health_score(u64::MAX, u64::MAX, u64::MAX), 0);
}

#[test]
fn summary_counts_period_and_last_error() {
    let entries = vec![
        make_processed("d", LogLevel::Debug, 0, 5000),
        make_processed("first failure", LogLevel::Fatal, 0, 9000),
        make_processed("w", LogLevel::Warn, 0, 2000),
        make_processed("same time, later in the batch", LogLevel::Error, 0, 9000),
        make_processed("earlier failure", LogLevel::Error, 0, 8000),
        make_processed("i", LogLevel::Info, 0, 9500),
    ];
    let detector = PatternDetector::new(1, 60);
    let patterns = detector.detect(&entries);
    assert_eq!(patterns.len(), 6);
    let s = generate_summary("p", &entries, &patterns, 2, 3);
    assert_eq!(s.period_start_ms, 2000);
    assert_eq!(s.period_end_ms, 9500);
    assert_eq!(s.total_lines, 6);
    assert_eq!(s.by_level, LevelCounts { debug: 1, info: 1, warn: 1, error: 2, fatal: 1 });
    assert_eq!(s.by_level.get(LogLevel::Error), 2);
    assert_eq!(s.last_error.as_deref(), Some("first failure"));
    assert_eq!(s.last_error_ms, Some(9000));
    assert_eq!(s.anomaly_count, 2);
    assert_eq!(s.health_score, 100 - 15 - 20 - 9);
    assert_eq!(s.top_patterns.len(), 5);
    assert_eq!(s.top_patterns[0].template, patterns[0].template);
    assert_eq!(s.top_patterns[0].count, 1);
    assert_eq!(s.top_patterns[0].trend, "stable");

    let empty = generate_summary("p", &[], &[], 0, 0);
    assert_eq!((empty.period_start_ms, empty.period_end_ms, empty.total_lines), (0, 0, 0));
    assert_eq!(empty.last_error, None);
    assert_eq!(empty.last_error_ms, None);
    assert_eq!(empty.health_score, 100);
}

#[test]
fn summary_text_is_exact() {
    let summary = LogSummary {
        process_name: "api".into(),
        period_start_ms: 1_000,
        period_end_ms: 7_201_000,
        total_lines: 5000,
        by_level: LevelCounts { debug: 1, info: 4980, warn: 7, error: 10, fatal: 2 },
        top_patterns: vec![
            PatternSummary { template: "short".into(), count: 40, trend: "rising".into() },
            PatternSummary { template: "x".repeat(61), count: 3, trend: "stable".into() },
        ],
        anomaly_count: 0,
        last_error: Some("connection refused".into()),
        last_error_ms: Some(7_141_000),
        health_score: 50,
    };
    let expected = format!(
        "Process: api | Period: last 2h | Health: 50/100\n\
Lines: 5000 | Errors: 12 | Warnings: 7\n\
Top patterns:\n  1. \"short\" (x40, trend: rising)\n  2. \"{}...\" (x3, trend: stable)\n\
Last error: \"connection refused\" (1m ago)\n",
        "x".repeat(57)
    );
    assert_eq!(format_summary(&summary), expected);

    let bare = LogSummary {
        top_patterns: vec![],
        last_error: None,
        last_error_ms: None,
        by_level: LevelCounts { debug: 0, info: 0, warn: 0, error: u64::MAX, fatal: u64::MAX },
        ..summary.clone()
    };
    assert_eq!(
        format_summary(&bare),
        "Process: api | Period: last 2h | Health: 50/100\nLines: 5000 | Errors: 36893488147419103230 | Warnings: 0\n"
    );
    let unknown_age = LogSummary { last_error_ms: None, top_patterns: vec![], ..summary };
    assert!(format_summary(&unknown_age).ends_with("Last error: \"connection refused\" (unknown ago)\n"));
}

#[test]
fn long_templates_are_cut_between_characters() {
    let summary = LogSummary {
        process_name: "p".into(),
        period_start_ms: 0,
        period_end_ms: 0,
        total_lines: 0,
        by_level: LevelCounts { debug: 0, info: 0, warn: 0, error: 0, fatal: 0 },
        top_patterns: vec![],
        anomaly_count: 0,
        last_error: Some(format!("{}\u{e9}{}", "a".repeat(56), "b".repeat(10))),
        last_error_ms: Some(0),
        health_score: 100,
    };
    let out = format_summary(&summary);
    assert!(out.contains(&format!("Last error: \"{}...\" (0s ago)", "a".repeat(56))));
    let fits = LogSummary { last_error: Some("\u{e9}".repeat(30)), ..summary };
    assert!(format_summary(&fits).contains(&format!("\"{}\"", "\u{e9}".repeat(30))));
}

#[test]
fn durations_and_periods() {
    assert_eq!(format_duration(0), "0s");
    assert_eq!(format_duration(59_999), "59s");
    assert_eq!(format_duration(60_000), "1m");
    assert_eq!(format_duration(3_599_999), "59m");
    assert_eq!(format_duration(3_600_000), "1h");
    assert_eq!(format_duration(86_399_999), "23h");
    assert_eq!(format_duration(86_400_000), "1d");
    assert_eq!(format_period(1000, 301_000), "last 5m");
    assert_eq!(format_period(5000, 1000), "last 0s");
}

#[test]
fn pattern_summary_from_pattern() {
    let detector = PatternDetector::new(1, 60);
    let patterns = detector.detect(&[make_error("e 10", 1), make_error("e 11", 2)]);
    let s: PatternSummary = (&patterns[0]).into();
    assert_eq!((s.template.as_str(), s.count, s.trend.as_str()), ("e <N>", 2, "stable"));
    let t = PatternSummary::from_pattern(&patterns[0]);
    assert_eq!((t.template, t.count, t.trend), (s.template, s.count, s.trend));
}

// ----------------------------------------------------------------------
// Anomaly counts
// ----------------------------------------------------------------------

#[test]
fn test_compute_minute_metrics() {
    let entries = vec![
        make_processed("ok", LogLevel::Info, 0, 1000),
        make_processed("fail", LogLevel::Error, 0, 2000),
        make_processed("ok2", LogLevel::Info, 0, 3000),
    ];
    let (errors, total) = compute_minute_metrics(&entries, 0, 60000);
    assert!((errors as f64 - 1.0).abs() < f64::EPSILON);
    assert!((total as f64 - 3.0).abs() < f64::EPSILON);
}

#[test]
fn minute_metrics_bucket_bounds() {
    let entries = vec![
        make_processed("a", LogLevel::Fatal, 0, 999),
        make_processed("b", LogLevel::Fatal, 0, 1000),
        make_processed("c", LogLevel::Warn, 0, 1500),
        make_processed("d", LogLevel::Error, 0, 1999),
        make_processed("e", LogLevel::Error, 0, 2000),
    ];
    assert_eq!(compute_minute_metrics(&entries, 1000, 2000), (2, 3));
    assert_eq!(compute_minute_metrics(&entries, 2000, 1000), (0, 0));
    assert_eq!(compute_minute_metrics(&entries, 0, u64::MAX), (4, 5));
    assert_eq!(compute_minute_metrics(&[], 0, 10), (0, 0));
}
