use rust_labs::config::{
    default_settings, with_debug_flag, AppLog, Config, Connections, LogLevel, MySql, Server,
    SettingValue, Watchdog,
};

#[test]
fn config_defaults() {
    let c = Config::default();
    assert!(!c.debug);
    assert_eq!(c.server.external_url, "http://127.0.0.1");
    assert_eq!(c.server.http_port, 8081);
    assert_eq!(c.server.grpc_port, 8082);
    assert_eq!(c.server.healthz_port, 10025);
    assert_eq!(c.server.metrics_port, 9199);
    assert_eq!(c.db.mysql.host, "127.0.0.1");
    assert_eq!(c.db.mysql.port, 3306);
    assert_eq!(c.db.mysql.dating, "default");
    assert_eq!(c.db.mysql.user, "root");
    assert_eq!(c.db.mysql.pass, "");
    assert_eq!(c.db.mysql.connections.max_idle, 30);
    assert_eq!(c.db.mysql.connections.max_open, 30);
    assert_eq!(c.log.app.level, LogLevel::Info);
    assert_eq!(c.background.watchdog.period, "5s");
    assert_eq!(c.background.watchdog.limit, 10);
    assert_eq!(c.background.watchdog.lock_timeout, "4s");
}

#[test]
fn part_defaults_agree_with_the_whole() {
    assert_eq!(Server::default().http_port, Config::default().server.http_port);
    assert_eq!(MySql::default().port, 3306);
    assert_eq!(Connections::default().max_open, 30);
    assert_eq!(AppLog::default().level, LogLevel::Info);
    assert_eq!(Watchdog::default().limit, 10);
    assert_eq!(LogLevel::default(), LogLevel::Info);
}

#[test]
fn log_level_names() {
    assert_eq!(LogLevel::Error.as_str(), "error");
    assert_eq!(LogLevel::Warn.as_str(), "warn");
    assert_eq!(LogLevel::Info.as_str(), "info");
    assert_eq!(LogLevel::Debug.as_str(), "debug");
    assert_eq!(LogLevel::Trace.as_str(), "trace");
}

#[test]
fn default_layer_lists_every_setting() {
    let s = default_settings();
    assert_eq!(s.len(), 17);
    let keys: Vec<&str> = s.iter().map(|e| e.0).collect();
    assert_eq!(
        keys,
        vec![
            "debug",
            "server.external_url",
            "server.http_port",
            "server.grpc_port",
            "server.healthz_port",
            "server.metrics_port",
            "db.mysql.host",
            "db.mysql.port",
            "db.mysql.dating",
            "db.mysql.user",
            "db.mysql.pass",
            "db.mysql.connections.max_idle",
            "db.mysql.connections.max_open",
            "log.app.level",
            "background.watchdog.period",
            "background.watchdog.limit",
            "background.watchdog.lock_timeout",
        ]
    );
    assert!(matches!(s[0].1, SettingValue::Bool(false)));
    assert!(matches!(s[2].1, SettingValue::Int(8081)));
    assert!(matches!(&s[13].1, SettingValue::Text(t) if t == "info"));
    assert!(matches!(&s[16].1, SettingValue::Text(t) if t == "4s"));
}

#[test]
fn debug_flag_only_turns_debug_on() {
    let c = with_debug_flag(Config::default(), true);
    assert!(c.debug);
    assert_eq!(c.server.http_port, 8081);
    let c = with_debug_flag(Config::default(), false);
    assert!(!c.debug);
    let mut on = Config::default();
    on.debug = true;
    assert!(with_debug_flag(on, false).debug);
}
