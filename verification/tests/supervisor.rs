use velos::cluster::{make_instance_name, names_for_start, plan_scale};
use velos::codec::{encode_log_entries, encode_process_detail, encode_process_list};
use velos::log_sink::{LogRing, RING_CAPACITY};
use velos::protocol::{
    decode_log_entries, decode_process_detail, decode_process_list, BinaryReader, BinaryWriter,
    ProcessInfo, StartPayload,
};
use velos::resolve::resolve_target_count;
use velos::runner::{
    command_line, is_ready_line, spawn_failure_entry, tag_line, working_dir, LineBuffer,
    READY_SENTINEL, SHUTDOWN_MESSAGE,
};
use velos::state::{decode_snapshot, encode_snapshot, resurrect, snapshot, SavedProcess};
use velos::supervisor::{restart_delay, Action, AfterStop, Policy, Runtime, SIGKILL, SIGTERM};
use velos::table::{ProcessTable, TableError};
use velos::{LogEntry, ProcessStatus, VelosError};

fn payload(name: &str, script: &str) -> StartPayload {
    StartPayload {
        name: name.into(),
        script: script.into(),
        cwd: "/srv".into(),
        interpreter: None,
        kill_timeout_ms: 5000,
        autorestart: true,
        max_restarts: 15,
        min_uptime_ms: 1000,
        restart_delay_ms: 0,
        exp_backoff: false,
        max_memory_restart: 0,
        watch: false,
        watch_delay_ms: 1000,
        watch_paths: String::new(),
        watch_ignore: String::new(),
        cron_restart: String::new(),
        wait_ready: false,
        listen_timeout_ms: 8000,
        shutdown_with_message: false,
        instances: 1,
    }
}

fn policy() -> Policy {
    Policy::of(&payload("p", "s"))
}

fn same_payload(a: &StartPayload, b: &StartPayload) -> bool {
    a.encode() == b.encode() && a.interpreter == b.interpreter
}

/// Starts the process of a fresh record with the given child.
fn started(policy: &Policy, pid: u32, now: u64) -> Runtime {
    let (r, action) = Runtime::new().on_start();
    assert_eq!(action, Action::Spawn { restart: false });
    r.on_spawn(policy, pid, false, now)
}

// ----------------------------------------------------------------------
// The end-to-end scenarios, on the state machine
// ----------------------------------------------------------------------

#[test]
fn happy_path() {
    let mut table = ProcessTable::new();
    let config = StartPayload { restart_delay_ms: 200, ..payload("worker", "tail -f /dev/null") };
    let policy = Policy::of(&config);
    let id = table.create(config, "worker").unwrap();
    table.set_runtime(id, started(&policy, 4242, 1_000)).unwrap();

    let list = table.list(1_500);
    assert_eq!(list.len(), 1);
    assert_eq!(list[0].status_str(), "running");
    assert_eq!(list[0].restart_count, 0);
    assert_eq!(list[0].pid, 4242);
    assert_eq!(list[0].uptime_ms, 500);

    // The child is killed from outside.
    let (crashed, action) = table.get(id).unwrap().runtime.on_exit(&policy, 137, 1_600);
    assert_eq!(action, Action::Nothing);
    assert_eq!(crashed.pid, 0);
    assert_eq!(crashed.restart_at, Some(1_800));
    assert_eq!(crashed.on_tick(&policy, 1_799).1, Action::Nothing);
    let (due, action) = crashed.on_tick(&policy, 1_800);
    assert_eq!(action, Action::Spawn { restart: true });
    table.set_runtime(id, due.on_spawn(&policy, 4243, true, 1_801)).unwrap();

    let list = table.list(2_000);
    assert_eq!(list[0].restart_count, 1);
    assert_eq!(list[0].pid, 4243);
    assert_eq!(list[0].status_str(), "running");

    // Delete: stop, wait for the exit, remove.
    let (stopping, action) = table.get(id).unwrap().runtime.on_delete(&policy, 3_000);
    assert_eq!(action, Action::Signal(SIGTERM));
    table.set_runtime(id, stopping).unwrap();
    assert!(matches!(table.remove(id), Err(TableError::StillAlive)));
    let (stopped, action) = stopping.on_exit(&policy, 0, 3_100);
    assert_eq!(action, Action::Remove);
    table.set_runtime(id, stopped).unwrap();
    assert_eq!(table.remove(id).unwrap().name, "worker");
    assert!(table.list(4_000).is_empty());
}

#[test]
fn crash_loop_capped() {
    let policy = Policy { max_restarts: 3, autorestart: true, min_uptime_ms: 1000, ..policy() };
    let mut now = 0u64;
    let mut r = started(&policy, 10, now);
    let mut spawns = 0;
    for _ in 0..10 {
        now += 5;
        let (crashed, _) = r.on_exit(&policy, 1, now);
        r = crashed;
        let (due, action) = r.on_tick(&policy, now + 60_000);
        r = due;
        if action == (Action::Spawn { restart: true }) {
            spawns += 1;
            r = r.on_spawn(&policy, 10 + spawns, true, now);
        }
    }
    assert_eq!(spawns, 3);
    assert_eq!(r.status, ProcessStatus::Errored);
    assert_eq!(r.restart_count, 3);
    assert_eq!(r.pid, 0);
    assert_eq!(r.restart_at, None);
    assert_eq!(r.on_tick(&policy, u64::MAX), (r, Action::Nothing));
}

#[test]
fn memory_restart() {
    let limit = 100 * 1024 * 1024;
    let policy = Policy { max_memory_restart: limit, ..policy() };
    let online = Runtime { consecutive_crashes: 2, ..started(&policy, 10, 0) };
    let (same, action) = online.on_memory_sample(&policy, limit, 100);
    assert_eq!(action, Action::Nothing);
    assert_eq!(same.memory_bytes_sampled, limit);
    assert_eq!(same.status, ProcessStatus::Online);

    let (stopping, action) = same.on_memory_sample(&policy, limit + 1, 200);
    assert_eq!(action, Action::Signal(SIGTERM));
    assert_eq!(stopping.status, ProcessStatus::Stopping);
    assert_eq!(stopping.after_stop, AfterStop::Restart);
    let (stopped, action) = stopping.on_exit(&policy, 0, 300);
    assert_eq!(action, Action::Spawn { restart: true });
    let again = stopped.on_spawn(&policy, 11, true, 301);
    assert_eq!(again.status, ProcessStatus::Online);
    assert_eq!(again.restart_count, 1);
    assert_eq!(again.consecutive_crashes, 2);
    assert_eq!(again.last_restart_at, 301);

    let unlimited = Policy { max_memory_restart: 0, ..policy };
    assert_eq!(online.on_memory_sample(&unlimited, u64::MAX, 1).1, Action::Nothing);
}

fn names(table: &ProcessTable) -> Vec<String> {
    table.list(0).into_iter().map(|p| p.name).collect()
}

/// Carries out a scale request and reports how many instances were
/// started and stopped.
fn scale(table: &mut ProcessTable, base: &str, count: &str) -> (u32, u32) {
    let list: Vec<ProcessInfo> = table.list(0);
    let target = resolve_target_count(&list, base, count, 8).unwrap();
    let plan = plan_scale(table, base, target);
    let mut started = 0;
    for name in &plan.start {
        table.create(payload(base, "api.js"), name).unwrap();
        started += 1;
    }
    let mut stopped = 0;
    for id in &plan.stop {
        table.remove(*id).unwrap();
        stopped += 1;
    }
    (started, stopped)
}

#[test]
fn cluster_scale_up_down() {
    let mut table = ProcessTable::new();
    for name in names_for_start("api", 2) {
        table.create(payload("api", "api.js"), &name).unwrap();
    }
    assert_eq!(names(&table), vec!["api:0", "api:1"]);

    assert_eq!(scale(&mut table, "api", "4"), (2, 0));
    assert_eq!(names(&table), vec!["api:0", "api:1", "api:2", "api:3"]);

    assert_eq!(scale(&mut table, "api", "+1"), (1, 0));
    assert_eq!(names(&table).len(), 5);

    let before: Vec<u32> = table.list(0).iter().map(|p| p.id).collect();
    let plan = plan_scale(&table, "api", 2);
    assert_eq!(plan.stop, vec![before[4], before[3], before[2]]);
    assert_eq!(scale(&mut table, "api", "-3"), (0, 3));
    assert_eq!(names(&table), vec!["api:0", "api:1"]);

    let ids: Vec<u32> = table.list(0).iter().map(|p| p.id).collect();
    assert_eq!(ids, vec![0, 1]);
    assert_eq!(scale(&mut table, "api", "2"), (0, 0));
    assert_eq!(scale(&mut table, "api", "3"), (1, 0));
    assert_eq!(table.by_name("api:2"), Some(5));
}

#[test]
fn graceful_shutdown_with_message() {
    let policy = Policy { shutdown_with_message: true, kill_timeout_ms: 500, ..policy() };
    let online = started(&policy, 10, 0);
    let (stopping, action) = online.on_stop(&policy, SIGTERM, policy.kill_timeout_ms, 1_000);
    assert_eq!(action, Action::ShutdownMessage);
    assert_eq!(stopping.status, ProcessStatus::Stopping);
    assert_eq!(stopping.kill_at, Some(1_500));

    // The child exits in time: no kill.
    for now in [1_000, 1_250, 1_499] {
        assert_eq!(stopping.on_tick(&policy, now), (stopping, Action::Nothing));
    }
    let (stopped, action) = stopping.on_exit(&policy, 0, 1_400);
    assert_eq!(action, Action::Nothing);
    assert_eq!(stopped.status, ProcessStatus::Stopped);
    assert_eq!(stopped.on_tick(&policy, 2_000), (stopped, Action::Nothing));

    // The child does not: it is killed when the timeout has run out, once.
    let (waiting, action) = stopping.on_tick(&policy, 1_500);
    assert_eq!(action, Action::Signal(SIGKILL));
    assert_eq!(waiting.on_tick(&policy, 1_600).1, Action::Nothing);
    let (killed, _) = waiting.on_exit(&policy, 137, 1_501);
    assert_eq!(killed.status, ProcessStatus::Stopped);
    assert_eq!(killed.pid, 0);
}

#[test]
fn resurrect_round_trip() {
    let mut table = ProcessTable::new();
    let first = StartPayload { interpreter: Some("node".into()), max_restarts: -1, ..payload("web", "web.js") };
    let second = StartPayload { exp_backoff: true, restart_delay_ms: 250, ..payload("worker", "w.py") };
    let third = StartPayload { cron_restart: "0 0 * * *".into(), instances: 2, ..payload("api", "a.js") };
    table.create(first.duplicate(), "web").unwrap();
    let gone = table.create(payload("tmp", "t"), "tmp").unwrap();
    table.create(second.duplicate(), "worker").unwrap();
    table.create(third.duplicate(), "api:0").unwrap();
    table.remove(gone).unwrap();

    let dump = encode_snapshot(&snapshot(&table));

    // The daemon comes up again with an empty table.
    let mut table = ProcessTable::new();
    let saved = decode_snapshot(&dump).unwrap();
    assert_eq!(resurrect(&mut table, &saved), 3);
    assert_eq!(names(&table), vec!["web", "worker", "api:0"]);
    assert!(same_payload(&table.get(0).unwrap().config, &first));
    assert!(same_payload(&table.get(1).unwrap().config, &second));
    assert!(same_payload(&table.get(2).unwrap().config, &third));
    assert_eq!(table.get(0).unwrap().runtime, Runtime::new());

    // What is there already is not started twice.
    assert_eq!(resurrect(&mut table, &saved), 0);
    assert_eq!(table.len(), 3);
}

// ----------------------------------------------------------------------
// Restart policy
// ----------------------------------------------------------------------

#[test]
fn restart_delays() {
    let flat = Policy { restart_delay_ms: 700, exp_backoff: false, ..policy() };
    for crashes in [0, 1, 5, 100, u32::MAX] {
        assert_eq!(restart_delay(&flat, crashes), 700);
    }
    let flat_long = Policy { restart_delay_ms: 90_000, exp_backoff: false, ..policy() };
    assert_eq!(restart_delay(&flat_long, 3), 90_000);
    let backoff = Policy { restart_delay_ms: 100, exp_backoff: true, ..policy() };
    let expected = [100u64, 200, 400, 800, 1600, 3200, 6400, 12_800, 25_600, 51_200, 60_000, 60_000];
    for (crashes, delay) in expected.iter().enumerate() {
        assert_eq!(restart_delay(&backoff, crashes as u32), *delay);
    }
    assert_eq!(restart_delay(&backoff, u32::MAX / 2), 60_000);
    let zero = Policy { restart_delay_ms: 0, exp_backoff: true, ..policy() };
    assert_eq!(restart_delay(&zero, 40), 0);
    let long = Policy { restart_delay_ms: u32::MAX, exp_backoff: true, ..policy() };
    assert_eq!(restart_delay(&long, 0), 60_000);
}

#[test]
fn crash_loop_arms_backoff() {
    let policy = Policy { restart_delay_ms: 100, exp_backoff: true, max_restarts: -1, ..policy() };
    let mut r = started(&policy, 1, 0);
    let mut now = 0u64;
    for k in 1..=8u32 {
        now += 10;
        let (crashed, _) = r.on_exit(&policy, 1, now);
        assert_eq!(crashed.consecutive_crashes, k);
        assert_eq!(crashed.status, ProcessStatus::Errored);
        let delay = std::cmp::min(100u64 << k, 60_000);
        assert_eq!(crashed.restart_at, Some(now + delay));
        now += delay;
        let (due, action) = crashed.on_tick(&policy, now);
        assert_eq!(action, Action::Spawn { restart: true });
        r = due.on_spawn(&policy, 1 + k, true, now);
        assert_eq!(r.restart_count, k);
    }
}

#[test]
fn stability_resets_the_crash_count() {
    let policy = Policy { min_uptime_ms: 1000, ..policy() };
    let shaky = Runtime { consecutive_crashes: 4, ..started(&policy, 1, 10_000) };
    assert_eq!(shaky.on_tick(&policy, 10_999), (shaky, Action::Nothing));
    let (stable, _) = shaky.on_tick(&policy, 11_000);
    assert!(stable.stable);
    assert_eq!(stable.consecutive_crashes, 0);
    assert_eq!(stable.on_exit(&policy, 1, 50_000).0.consecutive_crashes, 1);
    // Without a tick in between the late crash still counts as the first.
    assert_eq!(shaky.on_exit(&policy, 1, 11_000).0.consecutive_crashes, 1);
    // An early crash adds to the count.
    assert_eq!(shaky.on_exit(&policy, 1, 10_999).0.consecutive_crashes, 5);
}

#[test]
fn exits_without_autorestart() {
    let policy = Policy { autorestart: false, ..policy() };
    let online = started(&policy, 1, 0);
    let (clean, action) = online.on_exit(&policy, 0, 10);
    assert_eq!((clean.status, clean.restart_at, action), (ProcessStatus::Stopped, None, Action::Nothing));
    let (failed, _) = online.on_exit(&policy, 2, 10);
    assert_eq!((failed.status, failed.pid), (ProcessStatus::Errored, 0));
    assert_eq!(failed.on_tick(&policy, u64::MAX).1, Action::Nothing);
}

#[test]
fn spawn_failure_is_final() {
    let policy = policy();
    let failed = started(&policy, 0, 5);
    assert_eq!(failed.status, ProcessStatus::Errored);
    assert_eq!(failed.pid, 0);
    assert_eq!(failed.restart_at, None);
    assert_eq!(failed.on_tick(&policy, u64::MAX), (failed, Action::Nothing));
    // A start intent may try again.
    assert_eq!(failed.on_start().1, Action::Spawn { restart: false });
}

#[test]
fn waiting_for_readiness() {
    let policy = Policy { wait_ready: true, listen_timeout_ms: 8000, ..policy() };
    let starting = started(&policy, 1, 1_000);
    assert_eq!(starting.status, ProcessStatus::Starting);
    assert_eq!(starting.ready_by, Some(9_000));
    assert_eq!(starting.on_ready().status, ProcessStatus::Online);
    assert_eq!(starting.on_ready().ready_by, None);
    assert_eq!(starting.on_tick(&policy, 8_999), (starting, Action::Nothing));
    // Without a shutdown message the child is taken to be online.
    let (assumed, action) = starting.on_tick(&policy, 9_000);
    assert_eq!((assumed.status, action), (ProcessStatus::Online, Action::Nothing));
    // With one, the timeout is fatal.
    let strict = Policy { shutdown_with_message: true, ..policy };
    let (failing, action) = starting.on_tick(&strict, 9_000);
    assert_eq!(action, Action::ShutdownMessage);
    assert_eq!(failing.status, ProcessStatus::Stopping);
    assert_eq!(failing.on_exit(&strict, 0, 9_100).0.status, ProcessStatus::Errored);
}

#[test]
fn intents_on_a_stopped_process() {
    let policy = policy();
    let stopped = Runtime::new();
    assert_eq!(stopped.on_stop(&policy, SIGTERM, 100, 0), (stopped, Action::Nothing));
    assert_eq!(stopped.on_restart(&policy, 0).1, Action::Spawn { restart: true });
    assert_eq!(stopped.on_delete(&policy, 0).1, Action::Remove);
    assert_eq!(stopped.on_exit(&policy, 1, 0), (stopped, Action::Nothing));
    assert_eq!(stopped.on_ready(), stopped);
    let online = started(&policy, 7, 0);
    assert_eq!(online.on_start(), (online, Action::Nothing));
    // A stop cancels a pending restart.
    let (crashed, _) = online.on_exit(&policy, 1, 10);
    assert!(crashed.restart_at.is_some());
    assert_eq!(crashed.on_stop(&policy, SIGTERM, 100, 20).0.restart_at, None);
    // A restart intent on a running process stops it first.
    let (stopping, action) = online.on_restart(&policy, 30);
    assert_eq!(action, Action::Signal(SIGTERM));
    assert_eq!(stopping.kill_at, Some(5_030));
    assert_eq!(stopping.on_exit(&policy, 0, 40).1, Action::Spawn { restart: true });
    // Another signal than SIGTERM may be asked for.
    assert_eq!(online.on_stop(&policy, 2, 100, 0).1, Action::Signal(2));
}

// ----------------------------------------------------------------------
// The table
// ----------------------------------------------------------------------

#[test]
fn ids_grow_and_are_not_reused() {
    let mut table = ProcessTable::new();
    let mut assigned = Vec::new();
    for round in 0..5 {
        for k in 0..3 {
            let name = format!("p{}-{}", round, k);
            assigned.push(table.create(payload(&name, "s"), &name).unwrap());
        }
        let last = *assigned.last().unwrap();
        table.remove(last).unwrap();
        table.remove(assigned[assigned.len() - 3]).unwrap();
    }
    assert_eq!(assigned, (0..15).collect::<Vec<u32>>());
    assert_eq!(table.len(), 5);
}

#[test]
fn names_are_unique_among_records() {
    let mut table = ProcessTable::new();
    assert_eq!(table.create(payload("api", "a"), "api"), Ok(0));
    assert_eq!(table.create(payload("api", "b"), "api"), Err(TableError::NameTaken));
    assert_eq!(table.len(), 1);
    assert_eq!(table.get(0).unwrap().config.script, "a");
    table.remove(0).unwrap();
    // A delete permits reuse of the name, not of the id.
    assert_eq!(table.create(payload("api", "c"), "api"), Ok(1));
    assert_eq!(table.by_name("api"), Some(1));
    assert_eq!(table.by_name("ap"), None);
    assert!(table.get(0).is_none());
    assert!(matches!(table.remove(0), Err(TableError::NotFound)));
    assert_eq!(table.set_runtime(9, Runtime::new()), Err(TableError::NotFound));
}

#[test]
fn base_names_match_exactly_or_with_a_colon() {
    let mut table = ProcessTable::new();
    for name in ["api", "api:0", "api-v2", "api:1", "api:x", "web"] {
        table.create(payload(name, "s"), name).unwrap();
    }
    assert_eq!(table.by_base_name("api"), vec![0, 1, 3]);
    assert_eq!(table.by_base_name("api-v2"), vec![2]);
    assert_eq!(table.by_base_name("ap"), Vec::<u32>::new());
}

#[test]
fn summaries_and_details() {
    let mut table = ProcessTable::new();
    let config = StartPayload { interpreter: Some("node".into()), ..payload("api", "api.js") };
    let policy = Policy::of(&config);
    let id = table.create(config, "api").unwrap();
    let online = Runtime { memory_bytes_sampled: 4096, ..started(&policy, 77, 1_000) };
    table.set_runtime(id, online).unwrap();
    let d = table.detail(id, 3_500).unwrap();
    assert_eq!((d.id, d.name.as_str(), d.pid, d.status), (0, "api", 77, 1));
    assert_eq!((d.memory_bytes, d.uptime_ms, d.restart_count), (4096, 2_500, 0));
    assert_eq!((d.script.as_str(), d.cwd.as_str(), d.interpreter.as_str()), ("api.js", "/srv", "node"));
    assert_eq!(d.kill_timeout_ms, 5000);
    assert!(table.detail(5, 0).is_none());
    let back = decode_process_detail(&encode_process_detail(&d)).unwrap();
    assert_eq!(back.name, "api");
    assert_eq!(back.uptime_ms, 2_500);
    assert_eq!(back.interpreter, "node");

    for (status, code, alive) in [
        (ProcessStatus::Stopped, 0u8, false),
        (ProcessStatus::Online, 1, true),
        (ProcessStatus::Stopping, 1, true),
        (ProcessStatus::Errored, 2, false),
        (ProcessStatus::Starting, 3, true),
    ] {
        assert_eq!(status.to_code(), code);
        let r = Runtime { status, pid: if alive { 5 } else { 0 }, started_at: 100, ..Runtime::new() };
        assert_eq!(r.is_alive(), alive);
        table.set_runtime(id, r).unwrap();
        let line = &table.list(400)[0];
        assert_eq!(line.status, code);
        assert_eq!(line.uptime_ms, if alive { 300 } else { 0 });
    }
}

#[test]
fn instance_names() {
    assert_eq!(make_instance_name("api", 0), "api:0");
    assert_eq!(make_instance_name("api", 12), "api:12");
    assert_eq!(make_instance_name("", u32::MAX), ":4294967295");
    assert_eq!(names_for_start("api", 0), vec!["api"]);
    assert_eq!(names_for_start("api", 1), vec!["api"]);
    assert_eq!(names_for_start("api", 3), vec!["api:0", "api:1", "api:2"]);
    let table = ProcessTable::new();
    let plan = plan_scale(&table, "api", 2);
    assert_eq!(plan.start, vec!["api:0", "api:1"]);
    assert!(plan.stop.is_empty());
}

// ----------------------------------------------------------------------
// Payloads in both directions
// ----------------------------------------------------------------------

#[test]
fn start_payload_round_trip() {
    let p = StartPayload {
        interpreter: Some("python3".into()),
        max_restarts: -1,
        min_uptime_ms: u64::MAX,
        exp_backoff: true,
        max_memory_restart: 1 << 40,
        watch: true,
        watch_paths: "src/;config/".into(),
        watch_ignore: ".git".into(),
        cron_restart: "*/5 * * * *".into(),
        wait_ready: true,
        shutdown_with_message: true,
        instances: 4,
        ..payload("caf\u{e9}", "app.py")
    };
    let back = StartPayload::decode(&p.encode()).unwrap();
    assert!(same_payload(&back, &p));
    assert_eq!(back.name, "caf\u{e9}");
    assert_eq!(back.interpreter.as_deref(), Some("python3"));
    assert_eq!(back.instances, 4);
    let plain = payload("a", "b");
    assert_eq!(StartPayload::decode(&plain.encode()).unwrap().interpreter, None);
}

#[test]
fn missing_trailing_fields_take_defaults() {
    let full = StartPayload { kill_timeout_ms: 100, autorestart: false, ..payload("web", "web.js") }.encode();
    // name and script only
    let mut w = BinaryWriter::new();
    w.write_string("web");
    w.write_string("web.js");
    let p = StartPayload::decode(&w.buf).unwrap();
    assert_eq!((p.name.as_str(), p.script.as_str(), p.cwd.as_str()), ("web", "web.js", ""));
    assert_eq!(p.interpreter, None);
    assert_eq!(p.kill_timeout_ms, 5000);
    assert!(p.autorestart);
    assert_eq!(p.max_restarts, 15);
    assert_eq!(p.min_uptime_ms, 1000);
    assert_eq!(p.restart_delay_ms, 0);
    assert!(!p.exp_backoff);
    assert_eq!(p.max_memory_restart, 0);
    assert!(!p.watch);
    assert_eq!(p.watch_delay_ms, 1000);
    assert_eq!((p.watch_paths.as_str(), p.watch_ignore.as_str(), p.cron_restart.as_str()), ("", "", ""));
    assert!(!p.wait_ready);
    assert_eq!(p.listen_timeout_ms, 8000);
    assert!(!p.shutdown_with_message);
    assert_eq!(p.instances, 1);

    // Up to the memory limit: the shorter form of the payload.
    let mut r = BinaryReader::new(&full);
    for _ in 0..4 {
        r.read_string().unwrap();
    }
    let short_len = full.len() - r.remaining() + 4 + 1 + 4 + 8 + 4 + 1 + 8;
    let p = StartPayload::decode(&full[..short_len]).unwrap();
    assert_eq!(p.kill_timeout_ms, 100);
    assert!(!p.autorestart);
    assert_eq!(p.watch_delay_ms, 1000);
    assert_eq!(p.instances, 1);

    // A field that begins but does not end is an error; so is a missing
    // name or script.
    assert!(StartPayload::decode(&full[..short_len - 1]).is_err());
    assert!(StartPayload::decode(&full[..full.len() - 1]).is_err());
    assert!(StartPayload::decode(&[]).is_err());
    let mut w = BinaryWriter::new();
    w.write_string("web");
    assert!(matches!(StartPayload::decode(&w.buf), Err(VelosError::ProtocolError(_))));
}

#[test]
fn replies_round_trip() {
    let procs = vec![
        ProcessInfo { id: 0, name: "api:0".into(), pid: 10, status: 1, memory_bytes: 5, uptime_ms: 6, restart_count: 7 },
        ProcessInfo { id: 9, name: "".into(), pid: 0, status: 2, memory_bytes: u64::MAX, uptime_ms: 0, restart_count: u32::MAX },
    ];
    let back = decode_process_list(&encode_process_list(&procs)).unwrap();
    assert_eq!(back.len(), 2);
    for (a, b) in back.iter().zip(&procs) {
        assert_eq!(
            (a.id, &a.name, a.pid, a.status, a.memory_bytes, a.uptime_ms, a.restart_count),
            (b.id, &b.name, b.pid, b.status, b.memory_bytes, b.uptime_ms, b.restart_count)
        );
    }
    assert_eq!(encode_process_list(&[]), vec![0, 0, 0, 0]);

    let entries = vec![
        LogEntry { timestamp_ms: 1, level: 1, stream: 0, message: "started".into() },
        LogEntry { timestamp_ms: 2, level: 3, stream: 1, message: "f\u{e4}iled\n".into() },
    ];
    let back = decode_log_entries(&encode_log_entries(&entries)).unwrap();
    assert_eq!(back.len(), 2);
    assert_eq!((back[1].timestamp_ms, back[1].level, back[1].stream), (2, 3, 1));
    assert_eq!(back[1].message, "f\u{e4}iled\n");
}

#[test]
fn snapshots() {
    assert_eq!(encode_snapshot(&[]), vec![0, 0, 0, 0]);
    assert!(decode_snapshot(&[0, 0, 0, 0]).unwrap().is_empty());
    assert!(decode_snapshot(&[]).is_err());
    let saved = vec![
        SavedProcess { name: "api:0".into(), payload: payload("api", "a.js") },
        SavedProcess { name: "web".into(), payload: payload("web", "w.js") },
    ];
    let dump = encode_snapshot(&saved);
    let back = decode_snapshot(&dump).unwrap();
    assert_eq!(back.len(), 2);
    assert_eq!(back[0].name, "api:0");
    assert!(same_payload(&back[0].payload, &saved[0].payload));
    assert!(same_payload(&back[1].payload, &saved[1].payload));
    for cut in 1..dump.len() {
        assert!(decode_snapshot(&dump[..cut]).is_err(), "cut at {}", cut);
    }
    // A payload written without its later fields is read with defaults.
    let mut w = BinaryWriter::new();
    w.write_u32(1);
    w.write_string("old");
    let mut inner = BinaryWriter::new();
    inner.write_string("old");
    inner.write_string("old.js");
    w.write_bytes(&inner.buf);
    let back = decode_snapshot(&w.buf).unwrap();
    assert_eq!((back[0].name.as_str(), back[0].payload.script.as_str()), ("old", "old.js"));
    assert_eq!(back[0].payload.instances, 1);
}

// ----------------------------------------------------------------------
// The log sink and the runner
// ----------------------------------------------------------------------

fn line(ts: u64, stream: u8, msg: &str) -> LogEntry {
    LogEntry { timestamp_ms: ts, level: 1, stream, message: msg.into() }
}

fn read(ring: &LogRing, lines: u32) -> Vec<(u64, u8, String)> {
    ring.read(lines).into_iter().map(|e| (e.timestamp_ms, e.stream, e.message)).collect()
}

#[test]
fn ring_keeps_the_latest_entries() {
    let mut ring = LogRing::new(3);
    assert_eq!(ring.len(), 0);
    for k in 0..5u64 {
        ring.push(line(k, 0, &format!("m{}", k)));
    }
    assert_eq!(ring.len(), 3);
    assert_eq!(read(&ring, 10), vec![(2, 0, "m2".into()), (3, 0, "m3".into()), (4, 0, "m4".into())]);
    assert_eq!(read(&ring, 2), vec![(3, 0, "m3".into()), (4, 0, "m4".into())]);
    assert_eq!(read(&ring, 0), vec![]);
    let mut none = LogRing::new(0);
    none.push(line(1, 0, "x"));
    assert_eq!(none.len(), 0);
    assert_eq!(RING_CAPACITY, 10_000);
    let mut full = LogRing::with_defaults();
    for k in 0..10_050u64 {
        full.push(line(k, (k % 2) as u8, "x"));
    }
    assert_eq!(full.len(), 10_000);
    assert_eq!(full.read(1)[0].timestamp_ms, 10_049);
    assert_eq!(full.read(u32::MAX).first().unwrap().timestamp_ms, 50);
}

#[test]
fn read_back_interleaves_by_time_then_stream() {
    let mut ring = LogRing::new(100);
    // Two readers deliver their lines in their own order.
    ring.push(line(10, 1, "e1"));
    ring.push(line(30, 1, "e2"));
    ring.push(line(5, 0, "o1"));
    ring.push(line(10, 0, "o2"));
    ring.push(line(10, 0, "o3"));
    ring.push(line(30, 0, "o4"));
    ring.push(line(20, 1, "e3"));
    assert_eq!(
        read(&ring, 100).into_iter().map(|e| e.2).collect::<Vec<_>>(),
        vec!["o1", "o2", "o3", "e1", "e3", "o4", "e2"]
    );
    // The latest four as they arrived: o2, o3, o4, e3.
    assert_eq!(
        read(&ring, 4).into_iter().map(|e| e.2).collect::<Vec<_>>(),
        vec!["o2", "o3", "e3", "o4"]
    );
}

#[test]
fn lines_are_cut_whatever_the_pieces() {
    let text = b"first\nsecond line\n\nfo\xffrth\nlast without end";
    let expected: Vec<Vec<u8>> =
        vec![b"first".to_vec(), b"second line".to_vec(), b"".to_vec(), b"fo\xffrth".to_vec()];
    for size in 1..=text.len() {
        let mut buffer = LineBuffer::new();
        let mut lines = Vec::new();
        for chunk in text.chunks(size) {
            lines.extend(buffer.feed(chunk));
        }
        assert_eq!(lines, expected, "pieces of {}", size);
        assert_eq!(buffer.finish(), Some(b"last without end".to_vec()));
        assert_eq!(buffer.finish(), None);
    }
    let mut buffer = LineBuffer::new();
    assert_eq!(buffer.feed(b"\n"), vec![Vec::<u8>::new()]);
    assert_eq!(buffer.feed(b""), Vec::<Vec<u8>>::new());
    assert_eq!(buffer.finish(), None);
}

#[test]
fn lines_become_entries() {
    let e = tag_line(1234, 0, b"Server started");
    assert_eq!((e.timestamp_ms, e.level, e.stream, e.message.as_str()), (1234, 1, 0, "Server started"));
    let e = tag_line(5, 1, b"bad \xff byte");
    assert_eq!((e.stream, e.message.as_str()), (1, "bad \u{fffd} byte"));
    let e = spawn_failure_entry(9, "No such file or directory");
    assert_eq!((e.timestamp_ms, e.level, e.stream), (9, 3, 1));
    assert_eq!(e.message, "failed to spawn: No such file or directory");
}

#[test]
fn command_lines_and_marks() {
    let args = vec!["--port".to_string(), "3000".to_string()];
    assert_eq!(command_line("node", "server.js", &args), vec!["node", "server.js", "--port", "3000"]);
    assert_eq!(command_line("", "./server", &args), vec!["./server", "--port", "3000"]);
    assert_eq!(command_line("", "./server", &vec![]), vec!["./server"]);
    assert_eq!(working_dir("/app", "/daemon"), "/app");
    assert_eq!(working_dir("", "/daemon"), "/daemon");
    assert!(is_ready_line("VELOS_READY"));
    assert!(!is_ready_line("VELOS_READY "));
    assert!(!is_ready_line("velos_ready"));
    assert_eq!(READY_SENTINEL, "VELOS_READY");
    assert_eq!(SHUTDOWN_MESSAGE, "{\"type\":\"shutdown\"}\n");
}
