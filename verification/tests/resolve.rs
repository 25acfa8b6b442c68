use velos::protocol::ProcessInfo;
use velos::resolve::{
    count_instances, names_instance_of, needs_current_count, numeric_id, parse_instances,
    resolve_id, resolve_ids, resolve_target_count,
};
use velos::VelosError;

fn procs(names: &[&str]) -> Vec<ProcessInfo> {
    names
        .iter()
        .enumerate()
        .map(|(i, name)| ProcessInfo {
            id: 10 + i as u32,
            name: name.to_string(),
            pid: 0,
            status: 1,
            memory_bytes: 0,
            uptime_ms: 0,
            restart_count: 0,
        })
        .collect()
}

fn message(e: VelosError) -> String {
    match e {
        VelosError::ProtocolError(m) => m,
        other => panic!("expected a protocol error, got {:?}", other),
    }
}

#[test]
fn numeric_ids() {
    assert_eq!(numeric_id("0"), Some(0));
    assert_eq!(numeric_id("42"), Some(42));
    assert_eq!(numeric_id("+42"), Some(42));
    assert_eq!(numeric_id("4294967295"), Some(u32::MAX));
    assert_eq!(numeric_id("4294967296"), None);
    assert_eq!(numeric_id("-1"), None);
    assert_eq!(numeric_id(""), None);
    assert_eq!(numeric_id("+"), None);
    assert_eq!(numeric_id(" 1"), None);
    assert_eq!(numeric_id("1a"), None);
    assert_eq!(numeric_id("api"), None);
}

#[test]
fn resolve_id_by_number_or_name() {
    let list = procs(&["web", "api", "api"]);
    assert_eq!(resolve_id(&list, "7").unwrap(), 7);
    assert_eq!(resolve_id(&list, "api").unwrap(), 11);
    assert_eq!(resolve_id(&list, "web").unwrap(), 10);
    match resolve_id(&list, "db") {
        Err(VelosError::ProcessNotFound(name)) => assert_eq!(name, "db"),
        other => panic!("expected not found, got {:?}", other),
    }
    assert!(resolve_id(&[], "api").is_err());
    assert_eq!(resolve_id(&[], "3").unwrap(), 3);
}

#[test]
fn cluster_instance_names() {
    assert!(names_instance_of("api:0", "api"));
    assert!(names_instance_of("api:17", "api"));
    assert!(names_instance_of("api:+1", "api"));
    assert!(!names_instance_of("api", "api"));
    assert!(!names_instance_of("api:", "api"));
    assert!(!names_instance_of("api:x", "api"));
    assert!(!names_instance_of("api-v2", "api"));
    assert!(!names_instance_of("api-v2:0", "api"));
    assert!(!names_instance_of("xapi:0", "api"));
    assert!(!names_instance_of("api:0:1", "api"));
    assert!(names_instance_of("api:0:1", "api:0"));
    assert!(names_instance_of("caf\u{e9}:3", "caf\u{e9}"));
}

#[test]
fn resolve_ids_exact_before_cluster() {
    let list = procs(&["api:0", "api-v2", "api:1", "web", "api-v2:0"]);
    assert_eq!(resolve_ids(&list, "api").unwrap(), vec![10, 12]);
    assert_eq!(resolve_ids(&list, "api:1").unwrap(), vec![12]);
    assert_eq!(resolve_ids(&list, "api-v2").unwrap(), vec![11]);
    assert_eq!(resolve_ids(&list, "web").unwrap(), vec![13]);
    assert_eq!(resolve_ids(&list, "99").unwrap(), vec![99]);
    match resolve_ids(&list, "ap") {
        Err(VelosError::ProcessNotFound(name)) => assert_eq!(name, "ap"),
        other => panic!("expected not found, got {:?}", other),
    }
}

#[test]
fn instances_are_counted_with_the_bare_name() {
    let list = procs(&["api", "api:0", "api:1", "api-v2", "api:x"]);
    assert_eq!(count_instances(&list, "api"), 3);
    assert_eq!(count_instances(&list, "api-v2"), 1);
    assert_eq!(count_instances(&list, "web"), 0);
}

#[test]
fn scale_targets() {
    let two = procs(&["api:0", "api:1"]);
    assert_eq!(resolve_target_count(&two, "api", "4", 8).unwrap(), 4);
    assert_eq!(resolve_target_count(&two, "api", " 4 ", 8).unwrap(), 4);
    assert_eq!(resolve_target_count(&two, "api", "max", 8).unwrap(), 8);
    assert_eq!(resolve_target_count(&two, "api", "MAX", 8).unwrap(), 8);
    assert_eq!(resolve_target_count(&two, "api", "+2", 8).unwrap(), 4);
    assert_eq!(resolve_target_count(&two, "api", "-1", 8).unwrap(), 1);
    assert_eq!(resolve_target_count(&two, "api", "-2", 8).unwrap(), 0);
    assert_eq!(resolve_target_count(&two, "api", "-3", 8).unwrap(), 0);
    assert_eq!(resolve_target_count(&two, "api", "+0", 8).unwrap(), 2);
    assert_eq!(resolve_target_count(&two, "api", "0", 8).unwrap(), 0);
    assert_eq!(resolve_target_count(&two, "web", "+1", 8).unwrap(), 1);
    assert_eq!(message(resolve_target_count(&two, "api", "four", 8).unwrap_err()), "invalid count: 'four'");
    assert_eq!(message(resolve_target_count(&two, "api", " +x ", 8).unwrap_err()), "invalid count: '+x'");
    assert_eq!(message(resolve_target_count(&two, "api", "-", 8).unwrap_err()), "invalid count: '-'");
    assert_eq!(message(resolve_target_count(&two, "api", "", 8).unwrap_err()), "invalid count: ''");
    assert_eq!(
        message(resolve_target_count(&two, "api", "+2147483648", 8).unwrap_err()),
        "invalid count: '+2147483648'"
    );
    assert_eq!(resolve_target_count(&two, "api", "-2147483648", 8).unwrap(), 0);
}

#[test]
fn cluster_scale_up_and_down() {
    let two = procs(&["api:0", "api:1"]);
    assert_eq!(resolve_target_count(&two, "api", "4", 8).unwrap(), 4);
    let four = procs(&["api:0", "api:1", "api:2", "api:3"]);
    assert_eq!(resolve_target_count(&four, "api", "+1", 8).unwrap(), 5);
    let five = procs(&["api:0", "api:1", "api:2", "api:3", "api:4"]);
    assert_eq!(resolve_target_count(&five, "api", "-3", 8).unwrap(), 2);
}

#[test]
fn relative_targets_need_the_list() {
    assert!(needs_current_count("+1"));
    assert!(needs_current_count(" -2 "));
    assert!(needs_current_count("+x"));
    assert!(!needs_current_count("3"));
    assert!(!needs_current_count("max"));
    assert!(!needs_current_count(""));
}

#[test]
fn instances_argument() {
    assert_eq!(parse_instances(&None, 8).unwrap(), 1);
    assert_eq!(parse_instances(&Some("4".into()), 8).unwrap(), 4);
    assert_eq!(parse_instances(&Some(" 4 ".into()), 8).unwrap(), 4);
    assert_eq!(parse_instances(&Some("max".into()), 8).unwrap(), 8);
    assert_eq!(parse_instances(&Some("Max".into()), 8).unwrap(), 8);
    assert_eq!(parse_instances(&Some("0".into()), 8).unwrap(), 8);
    assert_eq!(parse_instances(&Some("00".into()), 8).unwrap(), 0);
    assert_eq!(
        message(parse_instances(&Some("many".into()), 8).unwrap_err()),
        "invalid instances value 'many': use a number or 'max'"
    );
    assert_eq!(
        message(parse_instances(&Some("-1".into()), 8).unwrap_err()),
        "invalid instances value '-1': use a number or 'max'"
    );
}
