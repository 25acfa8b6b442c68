use velos::config::{
    apply_env_profile, default_anomaly_window, default_dedup_window, default_instances,
    default_kill_timeout, default_log_retain, default_max_restarts, default_min_uptime,
    default_pattern_window, default_true, default_watch_delay, merge_with_cli, merged_env,
    parse_memory_string, resolve_app, set_var, validate_app, AppConfig, CliOverrides, ConfigError,
    Env, LogEngineConfig, VelosConfig,
};
use velos::ProcessConfig;

fn lookup<'a>(env: &'a Env, key: &str) -> Option<&'a str> {
    env.iter().rev().find(|(k, _)| k == key).map(|(_, v)| v.as_str())
}

fn text(v: &toml::Value) -> String {
    match v {
        toml::Value::String(s) => s.clone(),
        other => other.to_string(),
    }
}

fn opt_string(t: &toml::Table, key: &str) -> Result<Option<String>, ConfigError> {
    match t.get(key) {
        None => Ok(None),
        Some(toml::Value::String(s)) => Ok(Some(s.clone())),
        Some(_) => Err(ConfigError::Parse(format!("invalid type for `{}`", key))),
    }
}

fn integer(t: &toml::Table, key: &str, default: i64) -> Result<i64, ConfigError> {
    match t.get(key) {
        None => Ok(default),
        Some(toml::Value::Integer(n)) => Ok(*n),
        Some(_) => Err(ConfigError::Parse(format!("invalid type for `{}`", key))),
    }
}

fn flag(t: &toml::Table, key: &str, default: bool) -> Result<bool, ConfigError> {
    match t.get(key) {
        None => Ok(default),
        Some(toml::Value::Boolean(b)) => Ok(*b),
        Some(_) => Err(ConfigError::Parse(format!("invalid type for `{}`", key))),
    }
}

fn strings(t: &toml::Table, key: &str) -> Result<Vec<String>, ConfigError> {
    match t.get(key) {
        None => Ok(Vec::new()),
        Some(toml::Value::Array(items)) => Ok(items.iter().map(text).collect()),
        Some(_) => Err(ConfigError::Parse(format!("invalid type for `{}`", key))),
    }
}

fn env_of(v: &toml::Value) -> Env {
    match v {
        toml::Value::Table(t) => t.iter().map(|(k, v)| (k.clone(), text(v))).collect(),
        _ => Vec::new(),
    }
}

fn app_of(t: &toml::Table) -> Result<AppConfig, ConfigError> {
    let script = match t.get("script") {
        Some(toml::Value::String(s)) => s.clone(),
        _ => return Err(ConfigError::Parse("missing field `script`".to_string())),
    };
    let mut env_profiles = Vec::new();
    for (key, value) in t.iter() {
        if let Some(profile) = key.strip_prefix("env_") {
            if value.is_table() {
                env_profiles.push((profile.to_string(), env_of(value)));
            }
        }
    }
    Ok(AppConfig {
        name: opt_string(t, "name")?,
        script,
        cwd: opt_string(t, "cwd")?,
        interpreter: opt_string(t, "interpreter")?,
        args: strings(t, "args")?,
        instances: integer(t, "instances", default_instances() as i64)? as u32,
        autorestart: flag(t, "autorestart", default_true())?,
        max_restarts: integer(t, "max_restarts", default_max_restarts() as i64)? as i32,
        min_uptime: integer(t, "min_uptime", default_min_uptime() as i64)? as u64,
        restart_delay: integer(t, "restart_delay", 0)? as u64,
        exp_backoff_restart_delay: flag(t, "exp_backoff_restart_delay", false)?,
        kill_timeout: integer(t, "kill_timeout", default_kill_timeout() as i64)? as u64,
        max_memory_restart: opt_string(t, "max_memory_restart")?,
        watch: flag(t, "watch", false)?,
        watch_paths: strings(t, "watch_paths")?,
        watch_ignore: strings(t, "watch_ignore")?,
        watch_delay: integer(t, "watch_delay", default_watch_delay() as i64)? as u64,
        log_max_size: opt_string(t, "log_max_size")?,
        log_retain_count: integer(t, "log_retain_count", default_log_retain() as i64)? as u32,
        cron_restart: opt_string(t, "cron_restart")?,
        log_file: opt_string(t, "log_file")?,
        merge_logs: flag(t, "merge_logs", false)?,
        env: t.get("env").map(env_of).unwrap_or_default(),
        env_profiles,
    })
}

fn logs_of(t: &toml::Table) -> Result<LogEngineConfig, ConfigError> {
    Ok(LogEngineConfig {
        classifier: flag(t, "classifier", default_true())?,
        dedup_window: integer(t, "dedup_window", default_dedup_window() as i64)? as u64,
        pattern_window: integer(t, "pattern_window", default_pattern_window() as i64)? as u64,
        anomaly_window: integer(t, "anomaly_window", default_anomaly_window() as i64)? as u64,
    })
}

/// Reads a configuration from TOML, then completes and validates it.
fn parse(toml_str: &str) -> Result<VelosConfig, ConfigError> {
    let root: toml::Table =
        toml_str.parse().map_err(|e: toml::de::Error| ConfigError::Parse(e.to_string()))?;
    let mut apps = Vec::new();
    if let Some(toml::Value::Table(table)) = root.get("apps") {
        for (key, value) in table.iter() {
            match value {
                toml::Value::Table(t) => apps.push((key.clone(), app_of(t)?)),
                _ => return Err(ConfigError::Parse(format!("app `{}` is no table", key))),
            }
        }
    }
    let logs = match root.get("logs") {
        Some(toml::Value::Table(t)) => Some(logs_of(t)?),
        _ => None,
    };
    VelosConfig::from_apps(apps, logs)
}

const BASIC_TOML: &str = r#"
[apps.api]
script = "server.js"
cwd = "/app"
interpreter = "node"

[apps.api.env]
NODE_ENV = "production"
PORT = "3000"

[apps.api.env_production]
NODE_ENV = "production"
DATABASE_URL = "postgres://prod:5432/db"

[apps.api.env_development]
NODE_ENV = "development"
DATABASE_URL = "postgres://localhost:5432/db"
"#;

fn minimal_app(script: &str) -> AppConfig {
    AppConfig {
        name: None,
        script: script.to_string(),
        cwd: None,
        interpreter: None,
        args: Vec::new(),
        instances: 1,
        autorestart: true,
        max_restarts: 15,
        min_uptime: 1000,
        restart_delay: 0,
        exp_backoff_restart_delay: false,
        kill_timeout: 5000,
        max_memory_restart: None,
        watch: false,
        watch_paths: Vec::new(),
        watch_ignore: Vec::new(),
        watch_delay: 1000,
        log_max_size: None,
        log_retain_count: 30,
        cron_restart: None,
        log_file: None,
        merge_logs: false,
        env: Vec::new(),
        env_profiles: Vec::new(),
    }
}

fn validation_message(r: Result<(), ConfigError>) -> String {
    match r {
        Err(ConfigError::Validation(m)) => m,
        other => panic!("expected a validation error, got {:?}", other),
    }
}

#[test]
fn parse_valid_toml() {
    let config = parse(BASIC_TOML).unwrap();
    assert_eq!(config.apps.len(), 1);

    let api = config.get_app("api").unwrap();
    assert_eq!(api.name.as_deref(), Some("api"));
    assert_eq!(api.script, "server.js");
    assert_eq!(api.cwd.as_deref(), Some("/app"));
    assert_eq!(api.interpreter.as_deref(), Some("node"));
    assert_eq!(api.autorestart, true);
    assert_eq!(api.max_restarts, 15);
    assert_eq!(api.kill_timeout, 5000);
    assert_eq!(api.instances, 1);
}

#[test]
fn parse_env_vars() {
    let config = parse(BASIC_TOML).unwrap();
    let api = config.get_app("api").unwrap();

    assert_eq!(lookup(&api.env, "NODE_ENV").unwrap(), "production");
    assert_eq!(lookup(&api.env, "PORT").unwrap(), "3000");
}

#[test]
fn env_profile_merge() {
    let config = parse(BASIC_TOML).unwrap();
    let api = config.get_app("api").unwrap();

    // Base env.
    let base = merged_env(api, None);
    assert_eq!(lookup(&base, "NODE_ENV").unwrap(), "production");
    assert_eq!(lookup(&base, "PORT").unwrap(), "3000");
    assert!(lookup(&base, "DATABASE_URL").is_none());

    // Production profile: adds DATABASE_URL, keeps PORT from base.
    let prod = merged_env(api, Some("production"));
    assert_eq!(lookup(&prod, "NODE_ENV").unwrap(), "production");
    assert_eq!(lookup(&prod, "PORT").unwrap(), "3000");
    assert_eq!(lookup(&prod, "DATABASE_URL").unwrap(), "postgres://prod:5432/db");

    // Development profile: overrides NODE_ENV, adds DATABASE_URL.
    let dev = merged_env(api, Some("development"));
    assert_eq!(lookup(&dev, "NODE_ENV").unwrap(), "development");
    assert_eq!(lookup(&dev, "DATABASE_URL").unwrap(), "postgres://localhost:5432/db");
}

#[test]
fn parse_memory_strings() {
    assert_eq!(parse_memory_string("512K").unwrap(), 512 * 1024);
    assert_eq!(parse_memory_string("150M").unwrap(), 150 * 1024 * 1024);
    assert_eq!(parse_memory_string("1G").unwrap(), 1024 * 1024 * 1024);
    assert_eq!(parse_memory_string("1024").unwrap(), 1024);
    assert_eq!(parse_memory_string("100B").unwrap(), 100);
    assert_eq!(parse_memory_string("2g").unwrap(), 2 * 1024 * 1024 * 1024);
}

#[test]
fn parse_memory_invalid() {
    assert!(parse_memory_string("").is_err());
    assert!(parse_memory_string("abc").is_err());
    assert!(parse_memory_string("M").is_err());
}

#[test]
fn validate_empty_name() {
    let toml_str = r#"
[apps.""]
script = "server.js"
"#;
    let err = parse(toml_str).unwrap_err();
    assert!(err.to_string().contains("name must not be empty"));
}

#[test]
fn validate_invalid_name_chars() {
    let toml_str = r#"
[apps."my app"]
script = "server.js"
"#;
    let err = parse(toml_str).unwrap_err();
    assert!(err.to_string().contains("invalid characters"));
}

#[test]
fn validate_empty_script() {
    let toml_str = r#"
[apps.api]
script = ""
"#;
    let err = parse(toml_str).unwrap_err();
    assert!(err.to_string().contains("script must not be empty"));
}

#[test]
fn validate_kill_timeout_too_low() {
    let toml_str = r#"
[apps.api]
script = "server.js"
kill_timeout = 50
"#;
    let err = parse(toml_str).unwrap_err();
    assert!(err.to_string().contains("kill_timeout must be >= 100"));
}

#[test]
fn validate_max_restarts_too_low() {
    let toml_str = r#"
[apps.api]
script = "server.js"
max_restarts = -2
"#;
    let err = parse(toml_str).unwrap_err();
    assert!(err.to_string().contains("max_restarts must be >= -1"));
}

#[test]
fn validate_invalid_memory_format() {
    let toml_str = r#"
[apps.api]
script = "server.js"
max_memory_restart = "notanumber"
"#;
    let err = parse(toml_str).unwrap_err();
    assert!(err.to_string().contains("invalid max_memory_restart"));
}

#[test]
fn validate_invalid_cron() {
    let toml_str = r#"
[apps.api]
script = "server.js"
cron_restart = "* *"
"#;
    let err = parse(toml_str).unwrap_err();
    assert!(err.to_string().contains("cron_restart must have 5 fields"));
}

#[test]
fn merge_with_cli_overrides() {
    let config = parse(BASIC_TOML).unwrap();
    let api = config.get_app("api").unwrap();

    // No overrides: values come from config.
    let pc = merge_with_cli(api, &CliOverrides::default());
    assert_eq!(pc.name, "api");
    assert_eq!(pc.script, "server.js");
    assert_eq!(pc.cwd.as_deref(), Some("/app"));
    assert_eq!(pc.interpreter.as_deref(), Some("node"));
    assert_eq!(pc.kill_timeout_ms, 5000);
    assert!(pc.autorestart);

    // CLI overrides some values.
    let overrides = CliOverrides {
        name: Some("api-v2".into()),
        script: Some("server-v2.js".into()),
        cwd: Some("/app/v2".into()),
        kill_timeout_ms: Some(10000),
        ..Default::default()
    };
    let pc = merge_with_cli(api, &overrides);
    assert_eq!(pc.name, "api-v2");
    assert_eq!(pc.script, "server-v2.js");
    assert_eq!(pc.cwd.as_deref(), Some("/app/v2"));
    assert_eq!(pc.interpreter.as_deref(), Some("node")); // not overridden
    assert_eq!(pc.kill_timeout_ms, 10000);
}

#[test]
fn resolve_app_not_found() {
    let config = parse(BASIC_TOML).unwrap();
    let err = resolve_app(&config, "nonexistent", &CliOverrides::default(), None).unwrap_err();
    assert!(matches!(err, ConfigError::AppNotFound(_)));
}

#[test]
fn all_apps_returns_all() {
    let toml_str = r#"
[apps.web]
script = "web.js"

[apps.worker]
script = "worker.js"
"#;
    let config = parse(toml_str).unwrap();
    assert_eq!(config.all_apps().len(), 2);
}

#[test]
fn multi_app_config() {
    let toml_str = r#"
[apps.web]
script = "web.js"
interpreter = "node"
instances = 4
max_memory_restart = "256M"

[apps.worker]
script = "worker.py"
interpreter = "python3"
instances = 2
autorestart = false
"#;
    let config = parse(toml_str).unwrap();

    let web = config.get_app("web").unwrap();
    assert_eq!(web.instances, 4);
    assert_eq!(
        parse_memory_string(web.max_memory_restart.as_deref().unwrap()).unwrap(),
        256 * 1024 * 1024
    );

    let worker = config.get_app("worker").unwrap();
    assert_eq!(worker.instances, 2);
    assert_eq!(worker.interpreter.as_deref(), Some("python3"));
    assert!(!worker.autorestart);
}

#[test]
fn watch_config() {
    let toml_str = r#"
[apps.api]
script = "server.js"
watch = true
watch_paths = ["src/", "config/"]
watch_ignore = ["node_modules", ".git"]
watch_delay = 2000
"#;
    let config = parse(toml_str).unwrap();
    let api = config.get_app("api").unwrap();
    assert!(api.watch);
    assert_eq!(api.watch_paths, vec!["src/", "config/"]);
    assert_eq!(api.watch_ignore, vec!["node_modules", ".git"]);
    assert_eq!(api.watch_delay, 2000);
}

#[test]
fn defaults_are_applied() {
    let toml_str = r#"
[apps.minimal]
script = "app.js"
"#;
    let config = parse(toml_str).unwrap();
    let app = config.get_app("minimal").unwrap();
    assert!(app.autorestart);
    assert_eq!(app.max_restarts, 15);
    assert_eq!(app.min_uptime, 1000);
    assert_eq!(app.restart_delay, 0);
    assert_eq!(app.kill_timeout, 5000);
    assert_eq!(app.instances, 1);
    assert!(!app.watch);
    assert_eq!(app.watch_delay, 1000);
    assert_eq!(app.log_retain_count, 30);
    assert!(!app.merge_logs);
    assert!(!app.exp_backoff_restart_delay);
}

#[test]
fn load_with_env_applies_profile() {
    let mut config = parse(BASIC_TOML).unwrap();
    config.apply_profile("development");
    let api = config.get_app("api").unwrap();
    assert_eq!(lookup(&api.env, "NODE_ENV").unwrap(), "development");
    assert_eq!(lookup(&api.env, "DATABASE_URL").unwrap(), "postgres://localhost:5432/db");
    // PORT still comes from base.
    assert_eq!(lookup(&api.env, "PORT").unwrap(), "3000");
}

#[test]
fn valid_cron_passes() {
    let toml_str = r#"
[apps.api]
script = "server.js"
cron_restart = "0 0 * * *"
"#;
    let config = parse(toml_str).unwrap();
    let api = config.get_app("api").unwrap();
    assert_eq!(api.cron_restart.as_deref(), Some("0 0 * * *"));
}

#[test]
fn valid_name_with_dashes_underscores() {
    let toml_str = r#"
[apps.my-app_v2]
script = "app.js"
"#;
    let config = parse(toml_str).unwrap();
    assert!(config.get_app("my-app_v2").is_some());
}

#[test]
fn parse_log_engine_config() {
    let toml_str = r#"
[logs]
classifier = true
dedup_window = 120
pattern_window = 600
anomaly_window = 30
anomaly_sigma_warn = 1.5
anomaly_sigma_crit = 2.5

[apps.api]
script = "server.js"
"#;
    let config = parse(toml_str).unwrap();
    let logs = config.logs.unwrap();
    assert!(logs.classifier);
    assert_eq!(logs.dedup_window, 120);
    assert_eq!(logs.pattern_window, 600);
    assert_eq!(logs.anomaly_window, 30);
}

#[test]
fn parse_log_engine_defaults() {
    let toml_str = r#"
[apps.api]
script = "server.js"
"#;
    let config = parse(toml_str).unwrap();
    assert!(config.logs.is_none());

    let defaults = LogEngineConfig::default();
    assert!(defaults.classifier);
    assert_eq!(defaults.dedup_window, 60);
    assert_eq!(defaults.pattern_window, 300);
    assert_eq!(defaults.anomaly_window, 60);
}

#[test]
fn memory_sizes_trim_and_units() {
    assert_eq!(parse_memory_string("  150M  ").unwrap(), 150 * 1024 * 1024);
    assert_eq!(parse_memory_string("150 M").unwrap(), 150 * 1024 * 1024);
    assert_eq!(parse_memory_string("+7k").unwrap(), 7 * 1024);
    assert_eq!(parse_memory_string("3m").unwrap(), 3 * 1024 * 1024);
    assert_eq!(parse_memory_string("9b").unwrap(), 9);
    assert_eq!(parse_memory_string("0").unwrap(), 0);
    assert_eq!(parse_memory_string("007").unwrap(), 7);
    assert_eq!(parse_memory_string("18446744073709551615").unwrap(), u64::MAX);
    assert_eq!(parse_memory_string("17179869183G").unwrap(), 17179869183 * 1024 * 1024 * 1024);
}

#[test]
fn memory_size_errors_explain() {
    let message = |s: &str| match parse_memory_string(s) {
        Err(ConfigError::InvalidMemory(m)) => m,
        other => panic!("expected an invalid memory error, got {:?}", other),
    };
    assert_eq!(message(""), "empty string");
    assert_eq!(message("   "), "empty string");
    assert_eq!(message("M"), "cannot parse number: ''");
    assert_eq!(message("abc"), "cannot parse number: 'abc'");
    assert_eq!(message("12 x"), "cannot parse number: '12 x'");
    assert_eq!(message("-5M"), "cannot parse number: '-5'");
    assert_eq!(message("1.5G"), "cannot parse number: '1.5'");
    assert_eq!(message("18446744073709551616"), "cannot parse number: '18446744073709551616'");
    assert_eq!(message("17179869184G"), "cannot parse number: '17179869184'");
    assert_eq!(
        ConfigError::InvalidMemory("empty string".into()).to_string(),
        "invalid memory format: empty string"
    );
}

#[test]
fn validation_messages_are_exact() {
    let mut app = minimal_app("server.js");
    assert!(validate_app("api", &app).is_ok());

    app.name = Some("my app".into());
    assert_eq!(
        validation_message(validate_app("api", &app)),
        "app name 'my app' contains invalid characters (only alphanumeric, dash, underscore allowed)"
    );
    app.name = Some(String::new());
    assert_eq!(validation_message(validate_app("api", &app)), "app name must not be empty");
    app.name = None;

    app.script = String::new();
    assert_eq!(validation_message(validate_app("api", &app)), "app 'api': script must not be empty");
    app.script = "server.js".into();

    app.max_restarts = -2;
    assert_eq!(
        validation_message(validate_app("api", &app)),
        "app 'api': max_restarts must be >= -1, got -2"
    );
    app.max_restarts = -1;
    assert!(validate_app("api", &app).is_ok());

    app.kill_timeout = 99;
    assert_eq!(
        validation_message(validate_app("api", &app)),
        "app 'api': kill_timeout must be >= 100ms, got 99"
    );
    app.kill_timeout = 100;
    assert!(validate_app("api", &app).is_ok());

    app.max_memory_restart = Some("lots".into());
    assert_eq!(
        validation_message(validate_app("api", &app)),
        "app 'api': invalid max_memory_restart format: 'lots'"
    );
    app.max_memory_restart = Some("1G".into());

    app.log_max_size = Some("10Q".into());
    assert_eq!(
        validation_message(validate_app("api", &app)),
        "app 'api': invalid log_max_size format: '10Q'"
    );
    app.log_max_size = Some("10M".into());

    app.cron_restart = Some("* * *  *".into());
    assert_eq!(
        validation_message(validate_app("api", &app)),
        "app 'api': cron_restart must have 5 fields, got 4"
    );
    app.cron_restart = Some(String::new());
    assert!(validate_app("api", &app).is_ok());
    app.cron_restart = Some("  */5 *\t* * 1-5 ".into());
    assert!(validate_app("api", &app).is_ok());

    app.instances = 0;
    assert_eq!(
        validation_message(validate_app("api", &app)),
        "app 'api': instances must be >= 1, got 0"
    );
}

#[test]
fn first_broken_rule_is_reported() {
    let mut app = minimal_app("");
    app.kill_timeout = 1;
    app.instances = 0;
    assert_eq!(validation_message(validate_app("x", &app)), "app 'x': script must not be empty");
    let config = VelosConfig::from_apps(
        vec![("ok".to_string(), minimal_app("a.js")), ("bad".to_string(), app)],
        None,
    );
    assert_eq!(
        config.unwrap_err().to_string(),
        "validation error: app 'bad': script must not be empty"
    );
}

#[test]
fn unicode_names_are_alphanumeric() {
    let mut app = minimal_app("a.js");
    app.name = Some("caf\u{e9}-\u{6771}\u{4eac}_1".into());
    assert!(validate_app("k", &app).is_ok());
    app.name = Some("a.b".into());
    assert!(validate_app("k", &app).is_err());
}

#[test]
fn names_are_filled_in_from_keys() {
    let mut named = minimal_app("b.js");
    named.name = Some("custom".into());
    let config = VelosConfig::from_apps(
        vec![("first".to_string(), minimal_app("a.js")), ("second".to_string(), named)],
        None,
    )
    .unwrap();
    assert_eq!(config.apps[0].0, "first");
    assert_eq!(config.apps[0].1.name.as_deref(), Some("first"));
    assert_eq!(config.apps[1].1.name.as_deref(), Some("custom"));
    assert_eq!(config.get_app("second").unwrap().script, "b.js");
    assert!(config.get_app("custom").is_none());
}

#[test]
fn set_var_replaces_or_appends() {
    let mut env: Env = vec![("A".into(), "1".into()), ("B".into(), "2".into())];
    set_var(&mut env, "A", "3");
    assert_eq!(env, vec![("A".to_string(), "3".to_string()), ("B".to_string(), "2".to_string())]);
    set_var(&mut env, "C", "4");
    assert_eq!(env.len(), 3);
    assert_eq!(lookup(&env, "C"), Some("4"));
    let mut shadowed: Env = vec![("A".into(), "old".into()), ("A".into(), "new".into())];
    set_var(&mut shadowed, "A", "newest");
    assert_eq!(lookup(&shadowed, "A"), Some("newest"));
    assert_eq!(shadowed.len(), 2);
}

#[test]
fn unknown_profile_leaves_env_alone() {
    let config = parse(BASIC_TOML).unwrap();
    let api = config.get_app("api").unwrap();
    let env = merged_env(api, Some("staging"));
    assert_eq!(env, api.env);
    let mut app = minimal_app("a.js");
    app.env = vec![("K".into(), "v".into())];
    app.env_profiles = vec![("p".into(), vec![("K".into(), "w".into()), ("L".into(), "x".into())])];
    apply_env_profile(&mut app, "p");
    assert_eq!(lookup(&app.env, "K"), Some("w"));
    assert_eq!(lookup(&app.env, "L"), Some("x"));
    assert_eq!(app.script, "a.js");
}

#[test]
fn merge_takes_memory_limit_and_narrow_times() {
    let mut app = minimal_app("a.js");
    app.max_memory_restart = Some("150M".into());
    app.kill_timeout = 4294967296 + 7000;
    app.restart_delay = 250;
    app.min_uptime = 3000;
    app.exp_backoff_restart_delay = true;
    let pc: ProcessConfig = merge_with_cli(&app, &CliOverrides::default());
    assert_eq!(pc.name, "");
    assert_eq!(pc.max_memory_restart, Some(150 * 1024 * 1024));
    assert_eq!(pc.kill_timeout_ms, 7000);
    assert_eq!(pc.restart_delay_ms, 250);
    assert_eq!(pc.min_uptime_ms, 3000);
    assert!(pc.exp_backoff_restart_delay);
    let overrides = CliOverrides {
        autorestart: Some(false),
        max_restarts: Some(-1),
        max_memory_restart: Some(99),
        interpreter: Some("bun".into()),
        ..Default::default()
    };
    let pc = merge_with_cli(&app, &overrides);
    assert!(!pc.autorestart);
    assert_eq!(pc.max_restarts, -1);
    assert_eq!(pc.max_memory_restart, Some(99));
    assert_eq!(pc.interpreter.as_deref(), Some("bun"));
    app.max_memory_restart = Some("junk".into());
    assert_eq!(merge_with_cli(&app, &CliOverrides::default()).max_memory_restart, None);
}

#[test]
fn process_config_defaults() {
    let pc = ProcessConfig::default();
    assert_eq!(pc.name, "");
    assert_eq!(pc.script, "");
    assert_eq!(pc.cwd, None);
    assert_eq!(pc.interpreter, None);
    assert_eq!(pc.kill_timeout_ms, 5000);
    assert!(pc.autorestart);
    assert_eq!(pc.max_restarts, 15);
    assert_eq!(pc.min_uptime_ms, 1000);
    assert_eq!(pc.restart_delay_ms, 0);
    assert!(!pc.exp_backoff_restart_delay);
    assert_eq!(pc.max_memory_restart, None);
}

#[test]
fn config_error_texts() {
    assert_eq!(ConfigError::Io("gone".into()).to_string(), "failed to read config file: gone");
    assert_eq!(ConfigError::Parse("eof".into()).to_string(), "failed to parse TOML: eof");
    assert_eq!(ConfigError::Validation("bad".into()).to_string(), "validation error: bad");
    assert_eq!(ConfigError::AppNotFound("x".into()).to_string(), "app not found in config: x");
}
