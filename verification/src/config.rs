//! The service configuration: its shape, its defaults, the layer of default
//! settings that sits under the configuration file and the environment, and
//! the command-line debug switch that goes over all of them.

use vstd::prelude::*;

verus! {

#[derive(Debug, Clone)]
pub struct Config {
    pub debug: bool,
    pub server: Server,
    pub db: Db,
    pub log: Log,
    pub background: Background,
}

#[derive(Debug, Clone)]
pub struct Server {
    pub external_url: String,
    pub http_port: u16,
    pub grpc_port: u16,
    pub healthz_port: u16,
    pub metrics_port: u16,
}

#[derive(Debug, Clone)]
pub struct Db {
    pub mysql: MySql,
}

#[derive(Debug, Clone)]
pub struct MySql {
    pub host: String,
    pub port: u16,
    pub dating: String,
    pub user: String,
    pub pass: String,
    pub connections: Connections,
}

#[derive(Debug, Clone, Copy)]
pub struct Connections {
    pub max_idle: u32,
    pub max_open: u32,
}

#[derive(Debug, Clone, Copy)]
pub struct Log {
    pub app: AppLog,
}

#[derive(Debug, Clone, Copy)]
pub struct AppLog {
    pub level: LogLevel,
}

#[derive(Debug, Clone)]
pub struct Background {
    pub watchdog: Watchdog,
}

#[derive(Debug, Clone)]
pub struct Watchdog {
    pub period: String,
    pub limit: u32,
    pub lock_timeout: String,
}

#[derive(Debug, Clone, Copy, PartialEq, Eq, Structural)]
pub enum LogLevel {
    Error,
    Warn,
    Info,
    Debug,
    Trace,
}

/// The name of a log level, as the configuration spells it.
pub open spec fn level_name(l: LogLevel) -> Seq<char> {
    match l {
        LogLevel::Error => "error"@,
        LogLevel::Warn => "warn"@,
        LogLevel::Info => "info"@,
        LogLevel::Debug => "debug"@,
        LogLevel::Trace => "trace"@,
    }
}

impl LogLevel {
    /// The lower-case name of the level.
    pub fn as_str(&self) -> (s: &'static str)
        ensures
            s@ == level_name(*self),
    {
        match self {
            LogLevel::Error => "error",
            LogLevel::Warn => "warn",
            LogLevel::Info => "info",
            LogLevel::Debug => "debug",
            LogLevel::Trace => "trace",
        }
    }
}

pub open spec fn is_default_server(s: Server) -> bool {
    &&& s.external_url@ == "http://127.0.0.1"@
    &&& s.http_port == 8081
    &&& s.grpc_port == 8082
    &&& s.healthz_port == 10025
    &&& s.metrics_port == 9199
}

pub open spec fn is_default_connections(c: Connections) -> bool {
    c.max_idle == 30 && c.max_open == 30
}

pub open spec fn is_default_mysql(m: MySql) -> bool {
    &&& m.host@ == "127.0.0.1"@
    &&& m.port == 3306
    &&& m.dating@ == "default"@
    &&& m.user@ == "root"@
    &&& m.pass@ == ""@
    &&& is_default_connections(m.connections)
}

pub open spec fn is_default_watchdog(w: Watchdog) -> bool {
    &&& w.period@ == "5s"@
    &&& w.limit == 10
    &&& w.lock_timeout@ == "4s"@
}

pub open spec fn is_default_config(c: Config) -> bool {
    &&& !c.debug
    &&& is_default_server(c.server)
    &&& is_default_mysql(c.db.mysql)
    &&& c.log.app.level == LogLevel::Info
    &&& is_default_watchdog(c.background.watchdog)
}

impl Default for LogLevel {
    fn default() -> (l: Self)
        ensures
            l == LogLevel::Info,
    {
        LogLevel::Info
    }
}

impl Default for AppLog {
    fn default() -> (a: Self)
        ensures
            a.level == LogLevel::Info,
    {
        AppLog { level: LogLevel::Info }
    }
}

impl Default for Log {
    fn default() -> (l: Self)
        ensures
            l.app.level == LogLevel::Info,
    {
        Log { app: AppLog::default() }
    }
}

impl Default for Connections {
    fn default() -> (c: Self)
        ensures
            is_default_connections(c),
    {
        Connections { max_idle: 30, max_open: 30 }
    }
}

impl Default for MySql {
    fn default() -> (m: Self)
        ensures
            is_default_mysql(m),
    {
        MySql {
            host: String::from_str("127.0.0.1"),
            port: 3306,
            dating: String::from_str("default"),
            user: String::from_str("root"),
            pass: String::from_str(""),
            connections: Connections::default(),
        }
    }
}

impl Default for Db {
    fn default() -> (d: Self)
        ensures
            is_default_mysql(d.mysql),
    {
        Db { mysql: MySql::default() }
    }
}

impl Default for Server {
    fn default() -> (s: Self)
        ensures
            is_default_server(s),
    {
        Server {
            external_url: String::from_str("http://127.0.0.1"),
            http_port: 8081,
            grpc_port: 8082,
            healthz_port: 10025,
            metrics_port: 9199,
        }
    }
}

impl Default for Watchdog {
    fn default() -> (w: Self)
        ensures
            is_default_watchdog(w),
    {
        Watchdog {
            period: String::from_str("5s"),
            limit: 10,
            lock_timeout: String::from_str("4s"),
        }
    }
}

impl Default for Background {
    fn default() -> (b: Self)
        ensures
            is_default_watchdog(b.watchdog),
    {
        Background { watchdog: Watchdog::default() }
    }
}

impl Default for Config {
    fn default() -> (c: Self)
        ensures
            is_default_config(c),
    {
        Config {
            debug: false,
            server: Server::default(),
            db: Db::default(),
            log: Log::default(),
            background: Background::default(),
        }
    }
}

/// A value of a configuration setting.
pub enum SettingValue {
    Bool(bool),
    Int(i64),
    Text(String),
}

/// A setting value, mathematically.
pub enum SettingView {
    Bool(bool),
    Int(int),
    Text(Seq<char>),
}

impl View for SettingValue {
    type V = SettingView;

    open spec fn view(&self) -> SettingView {
        match self {
            SettingValue::Bool(b) => SettingView::Bool(*b),
            SettingValue::Int(i) => SettingView::Int(*i as int),
            SettingValue::Text(s) => SettingView::Text(s@),
        }
    }
}

/// A configuration laid out as settings: each leaf under its dotted path.
pub open spec fn settings_of(c: Config) -> Seq<(Seq<char>, SettingView)> {
    seq![
        ("debug"@, SettingView::Bool(c.debug)),
        ("server.external_url"@, SettingView::Text(c.server.external_url@)),
        ("server.http_port"@, SettingView::Int(c.server.http_port as int)),
        ("server.grpc_port"@, SettingView::Int(c.server.grpc_port as int)),
        ("server.healthz_port"@, SettingView::Int(c.server.healthz_port as int)),
        ("server.metrics_port"@, SettingView::Int(c.server.metrics_port as int)),
        ("db.mysql.host"@, SettingView::Text(c.db.mysql.host@)),
        ("db.mysql.port"@, SettingView::Int(c.db.mysql.port as int)),
        ("db.mysql.dating"@, SettingView::Text(c.db.mysql.dating@)),
        ("db.mysql.user"@, SettingView::Text(c.db.mysql.user@)),
        ("db.mysql.pass"@, SettingView::Text(c.db.mysql.pass@)),
        ("db.mysql.connections.max_idle"@, SettingView::Int(c.db.mysql.connections.max_idle as int)),
        ("db.mysql.connections.max_open"@, SettingView::Int(c.db.mysql.connections.max_open as int)),
        ("log.app.level"@, SettingView::Text(level_name(c.log.app.level))),
        ("background.watchdog.period"@, SettingView::Text(c.background.watchdog.period@)),
        ("background.watchdog.limit"@, SettingView::Int(c.background.watchdog.limit as int)),
        ("background.watchdog.lock_timeout"@, SettingView::Text(c.background.watchdog.lock_timeout@)),
    ]
}

/// The value of the first setting under `path`, if any.
pub open spec fn setting_value(s: Seq<(Seq<char>, SettingView)>, path: Seq<char>) -> Option<SettingView>
    decreases s.len(),
{
    if s.len() == 0 {
        None
    } else if s[0].0 == path {
        Some(s[0].1)
    } else {
        setting_value(s.drop_first(), path)
    }
}

/// Each path of the layout holds the field it names: looking a path up
/// gives that field of the configuration, for every configuration (and so,
/// for the default one, the default of that field).
pub proof fn law_each_path_holds_its_field(c: Config)
    ensures
        setting_value(settings_of(c), "debug"@) == Some(SettingView::Bool(c.debug)),
        setting_value(settings_of(c), "server.external_url"@) == Some(
            SettingView::Text(c.server.external_url@),
        ),
        setting_value(settings_of(c), "server.http_port"@) == Some(
            SettingView::Int(c.server.http_port as int),
        ),
        setting_value(settings_of(c), "server.grpc_port"@) == Some(
            SettingView::Int(c.server.grpc_port as int),
        ),
        setting_value(settings_of(c), "server.healthz_port"@) == Some(
            SettingView::Int(c.server.healthz_port as int),
        ),
        setting_value(settings_of(c), "server.metrics_port"@) == Some(
            SettingView::Int(c.server.metrics_port as int),
        ),
        setting_value(settings_of(c), "db.mysql.host"@) == Some(SettingView::Text(c.db.mysql.host@)),
        setting_value(settings_of(c), "db.mysql.port"@) == Some(
            SettingView::Int(c.db.mysql.port as int),
        ),
        setting_value(settings_of(c), "db.mysql.dating"@) == Some(
            SettingView::Text(c.db.mysql.dating@),
        ),
        setting_value(settings_of(c), "db.mysql.user"@) == Some(SettingView::Text(c.db.mysql.user@)),
        setting_value(settings_of(c), "db.mysql.pass"@) == Some(SettingView::Text(c.db.mysql.pass@)),
        setting_value(settings_of(c), "db.mysql.connections.max_idle"@) == Some(
            SettingView::Int(c.db.mysql.connections.max_idle as int),
        ),
        setting_value(settings_of(c), "db.mysql.connections.max_open"@) == Some(
            SettingView::Int(c.db.mysql.connections.max_open as int),
        ),
        setting_value(settings_of(c), "log.app.level"@) == Some(
            SettingView::Text(level_name(c.log.app.level)),
        ),
        setting_value(settings_of(c), "background.watchdog.period"@) == Some(
            SettingView::Text(c.background.watchdog.period@),
        ),
        setting_value(settings_of(c), "background.watchdog.limit"@) == Some(
            SettingView::Int(c.background.watchdog.limit as int),
        ),
        setting_value(settings_of(c), "background.watchdog.lock_timeout"@) == Some(
            SettingView::Text(c.background.watchdog.lock_timeout@),
        ),
{
    reveal_strlit("debug");
    reveal_strlit("server.external_url");
    reveal_strlit("server.http_port");
    reveal_strlit("server.grpc_port");
    reveal_strlit("server.healthz_port");
    reveal_strlit("server.metrics_port");
    reveal_strlit("db.mysql.host");
    reveal_strlit("db.mysql.port");
    reveal_strlit("db.mysql.dating");
    reveal_strlit("db.mysql.user");
    reveal_strlit("db.mysql.pass");
    reveal_strlit("db.mysql.connections.max_idle");
    reveal_strlit("db.mysql.connections.max_open");
    reveal_strlit("log.app.level");
    reveal_strlit("background.watchdog.period");
    reveal_strlit("background.watchdog.limit");
    reveal_strlit("background.watchdog.lock_timeout");
    let s = settings_of(c);
    assert forall|k: int| 0 <= k < 17 implies #[trigger] setting_value(s, s[k].0) == Some(s[k].1) by {
        assert forall|j: int| 0 <= j < k implies #[trigger] s[j].0 != s[k].0 by {
            assert(s[j].0.len() != s[k].0.len() || s[j].0[0] != s[k].0[0] || s[j].0[3] != s[k].0[3]
                || s[j].0[9] != s[k].0[9] || s[j].0[10] != s[k].0[10] || s[j].0[7] != s[k].0[7]
                || s[j].0[20] != s[k].0[20] || s[j].0[25] != s[k].0[25]);
        }
        lemma_value_at(s, s[k].0, k);
    }
    assert(setting_value(s, s[0].0) == Some(s[0].1));
    assert(setting_value(s, s[1].0) == Some(s[1].1));
    assert(setting_value(s, s[2].0) == Some(s[2].1));
    assert(setting_value(s, s[3].0) == Some(s[3].1));
    assert(setting_value(s, s[4].0) == Some(s[4].1));
    assert(setting_value(s, s[5].0) == Some(s[5].1));
    assert(setting_value(s, s[6].0) == Some(s[6].1));
    assert(setting_value(s, s[7].0) == Some(s[7].1));
    assert(setting_value(s, s[8].0) == Some(s[8].1));
    assert(setting_value(s, s[9].0) == Some(s[9].1));
    assert(setting_value(s, s[10].0) == Some(s[10].1));
    assert(setting_value(s, s[11].0) == Some(s[11].1));
    assert(setting_value(s, s[12].0) == Some(s[12].1));
    assert(setting_value(s, s[13].0) == Some(s[13].1));
    assert(setting_value(s, s[14].0) == Some(s[14].1));
    assert(setting_value(s, s[15].0) == Some(s[15].1));
    assert(setting_value(s, s[16].0) == Some(s[16].1));
}

proof fn lemma_value_at(s: Seq<(Seq<char>, SettingView)>, path: Seq<char>, k: int)
    requires
        0 <= k < s.len(),
        s[k].0 == path,
        forall|j: int| 0 <= j < k ==> #[trigger] s[j].0 != path,
    ensures
        setting_value(s, path) == Some(s[k].1),
    decreases k,
{
    if k > 0 {
        let t = s.drop_first();
        assert forall|j: int| 0 <= j < k - 1 implies #[trigger] t[j].0 != path by {
            assert(t[j] == s[j + 1]);
        }
        lemma_value_at(t, path, k - 1);
    }
}

/// The views of a list of settings.
pub open spec fn settings_view(s: Seq<(&'static str, SettingValue)>) -> Seq<(Seq<char>, SettingView)> {
    s.map_values(|e: (&'static str, SettingValue)| (e.0@, e.1@))
}

/// The default layer: every setting under its path, with the value that
/// `Config::default()` gives it. The configuration file and the `CONF__`
/// environment go over this layer.
pub fn default_settings() -> (r: Vec<(&'static str, SettingValue)>)
    ensures
        exists|c: Config| is_default_config(c) && settings_view(r@) == settings_of(c),
{
    let d = Config::default();
    let mut r: Vec<(&'static str, SettingValue)> = Vec::new();
    r.push(("debug", SettingValue::Bool(d.debug)));
    r.push(("server.external_url", SettingValue::Text(d.server.external_url.clone())));
    r.push(("server.http_port", SettingValue::Int(d.server.http_port as i64)));
    r.push(("server.grpc_port", SettingValue::Int(d.server.grpc_port as i64)));
    r.push(("server.healthz_port", SettingValue::Int(d.server.healthz_port as i64)));
    r.push(("server.metrics_port", SettingValue::Int(d.server.metrics_port as i64)));
    r.push(("db.mysql.host", SettingValue::Text(d.db.mysql.host.clone())));
    r.push(("db.mysql.port", SettingValue::Int(d.db.mysql.port as i64)));
    r.push(("db.mysql.dating", SettingValue::Text(d.db.mysql.dating.clone())));
    r.push(("db.mysql.user", SettingValue::Text(d.db.mysql.user.clone())));
    r.push(("db.mysql.pass", SettingValue::Text(d.db.mysql.pass.clone())));
    r.push(("db.mysql.connections.max_idle", SettingValue::Int(d.db.mysql.connections.max_idle as i64)));
    r.push(("db.mysql.connections.max_open", SettingValue::Int(d.db.mysql.connections.max_open as i64)));
    r.push(("log.app.level", SettingValue::Text(String::from_str(d.log.app.level.as_str()))));
    r.push(("background.watchdog.period", SettingValue::Text(d.background.watchdog.period.clone())));
    r.push(("background.watchdog.limit", SettingValue::Int(d.background.watchdog.limit as i64)));
    r.push(("background.watchdog.lock_timeout", SettingValue::Text(d.background.watchdog.lock_timeout.clone())));
    assert(settings_view(r@) =~= settings_of(d));
    r
}

/// The command-line switch goes over every other source: `--debug` turns
/// debugging on, its absence leaves the loaded value as it was.
pub fn with_debug_flag(cfg: Config, debug: bool) -> (r: Config)
    ensures
        r.debug == (cfg.debug || debug),
        r.server == cfg.server,
        r.db == cfg.db,
        r.log == cfg.log,
        r.background == cfg.background,
{
    let mut cfg = cfg;
    if debug {
        cfg.debug = true;
    }
    cfg
}

} // verus!
