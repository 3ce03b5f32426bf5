use rust_labs::cli::{parse_command, Command, Source};
use rust_labs::provider::{pick_provider_from_env, provider_for_kind, split_setting, AppError, Provider};
use rust_labs::slug::{ascii_lowercase, slug_from_lowercase, to_kebab_slug};
use rust_labs::snippets::{
    list_line, list_line_at, snippet_from_row, sort_snippets_by_name, JsonFile, JsonStore, Snippet,
    Timestamp,
};
use rust_labs::text::{is_blank, is_whitespace, text_less, trim_str};

fn snip(name: &str, code: &str) -> Snippet {
    Snippet {
        name: name.to_string(),
        lang: "text".to_string(),
        code: code.to_string(),
        created_at: Timestamp { secs: 1_700_000_000, nanos: 5 },
    }
}

fn args(a: &[&str]) -> Vec<String> {
    a.iter().map(|s| s.to_string()).collect()
}

#[test]
fn kebab_slug_examples() {
    assert_eq!(to_kebab_slug("Hello World"), "hello-world");
    assert_eq!(to_kebab_slug("  Hello,   World!  "), "hello-world");
    assert_eq!(to_kebab_slug("snake_case-and-kebab"), "snake_case-and-kebab");
    assert_eq!(to_kebab_slug("Ünïcödé Wörds"), "n-c-d-w-rds");
    assert_eq!(to_kebab_slug("\t tab\tSeparated\n"), "tab-separated");
    assert_eq!(to_kebab_slug("!!!"), "");
    assert_eq!(to_kebab_slug(""), "");
}

#[test]
fn leap_seconds_are_written_as_second_60() {
    let t = Timestamp { secs: 1_483_228_799, nanos: 1_000_000_000 };
    assert_eq!(t.to_rfc3339().unwrap(), "2016-12-31T23:59:60+00:00");
}

#[test]
fn kebab_slug_of_a_slug_is_the_same() {
    for s in ["Hello World", "  Ünïcödé Wörds ", "\u{212A}elvin Sign", "A_B-c", "!!!", "İstanbul"] {
        let once = to_kebab_slug(s);
        assert_eq!(to_kebab_slug(&once), once);
        assert!(once.chars().all(|c| c.is_ascii_digit() || c.is_ascii_lowercase() || c == '-' || c == '_'));
    }
    assert_eq!(to_kebab_slug("\u{212A}elvin"), "kelvin");
    assert_eq!(ascii_lowercase("AbC-Ü z"), "abc-Ü z");
}

#[test]
fn slug_of_slug_is_the_same() {
    for s in ["hello world", "a--b  c", "x_y", "  "] {
        let once = slug_from_lowercase(s);
        assert_eq!(slug_from_lowercase(&once), once);
    }
}

#[test]
fn whitespace_and_trim() {
    assert!(is_whitespace(' '));
    assert!(is_whitespace('\u{3000}'));
    assert!(is_whitespace('\u{a0}'));
    assert!(!is_whitespace('a'));
    assert!(!is_whitespace('\u{200b}'));
    assert_eq!(trim_str("  a b \n"), "a b");
    assert_eq!(trim_str("\u{2003}x\u{2003}"), "x");
    assert!(is_blank(" \t\n"));
    assert!(is_blank(""));
    assert!(!is_blank(" x "));
}

#[test]
fn text_order_is_code_point_order() {
    assert!(text_less("a", "b"));
    assert!(text_less("a", "ab"));
    assert!(!text_less("ab", "a"));
    assert!(!text_less("a", "a"));
    assert!(text_less("Z", "a"));
    assert!(text_less("z", "é"));
}

#[test]
fn create_overwrites_an_existing_name() {
    let mut f = JsonFile::default();
    assert!(f.create(&snip("same", "v1")));
    assert!(!f.create(&snip("same", "v2")));
    assert_eq!(f.snippets.len(), 1);
    assert_eq!(f.read("same").unwrap().code, "v2");
}

#[test]
fn create_replaces_in_place() {
    let mut f = JsonFile { snippets: vec![snip("a", "1"), snip("b", "2"), snip("c", "3")] };
    assert!(!f.create(&snip("b", "new")));
    let codes: Vec<&str> = f.snippets.iter().map(|s| s.code.as_str()).collect();
    assert_eq!(codes, vec!["1", "new", "3"]);
    assert!(f.create(&snip("d", "4")));
    assert_eq!(f.snippets.len(), 4);
    assert_eq!(f.snippets[3].name, "d");
}

#[test]
fn rfc3339_round_trip() {
    for t in [
        Timestamp { secs: -62167219200, nanos: 0 },
        Timestamp { secs: 253402300799, nanos: 999_999_999 },
        Timestamp { secs: 1_700_000_000, nanos: 123_456_789 },
        Timestamp { secs: 86_399, nanos: 1_000 },
        Timestamp { secs: 1_483_228_799, nanos: 1_000_000_000 },
        Timestamp { secs: 1_483_228_799, nanos: 1_500_000_000 },
    ] {
        let text = t.to_rfc3339().unwrap();
        assert_eq!(Timestamp::parse_rfc3339(&text).unwrap(), t);
    }
}

#[test]
fn read_finds_the_first_of_a_name() {
    let f = JsonFile { snippets: vec![snip("b", "1"), snip("a", "2"), snip("a", "3")] };
    assert_eq!(f.read("a").unwrap().code, "2");
    assert!(f.read("c").is_none());
}

#[test]
fn delete_removes_every_snippet_of_the_name() {
    let mut f = JsonFile { snippets: vec![snip("a", "1"), snip("b", "2"), snip("a", "3")] };
    assert!(f.delete("a"));
    assert_eq!(f.snippets.len(), 1);
    assert_eq!(f.snippets[0].name, "b");
    assert!(!f.delete("a"));
    assert!(f.read("a").is_none());
}

#[test]
fn list_sorts_by_name_and_keeps_ties_in_order() {
    let f = JsonFile {
        snippets: vec![snip("b", "1"), snip("a", "2"), snip("c", "3"), snip("a", "4")],
    };
    let l = f.list();
    let names: Vec<&str> = l.iter().map(|s| s.name.as_str()).collect();
    assert_eq!(names, vec!["a", "a", "b", "c"]);
    assert_eq!(l[0].code, "2");
    assert_eq!(l[1].code, "4");
    assert_eq!(f.snippets.len(), 4);
    let again = sort_snippets_by_name(&l);
    let codes: Vec<&str> = again.iter().map(|s| s.code.as_str()).collect();
    assert_eq!(codes, vec!["2", "4", "1", "3"]);
}

#[test]
fn json_store_keeps_its_path() {
    let s = JsonStore::new("snips/snippets.json".to_string());
    assert_eq!(s.path, "snips/snippets.json");
}

#[test]
fn provider_from_setting() {
    match pick_provider_from_env(None) {
        Ok(Provider::Json(p)) => assert_eq!(p, "snips/snippets.json"),
        _ => panic!("default is the JSON store"),
    }
    match pick_provider_from_env(Some(" sqlite : /tmp/db.sqlite ")) {
        Ok(Provider::Sqlite(p)) => assert_eq!(p, "/tmp/db.sqlite"),
        _ => panic!("sqlite, any case"),
    }
    match pick_provider_from_env(Some("Sqlite3:x:y")) {
        Ok(Provider::Sqlite(p)) => assert_eq!(p, "x:y"),
        _ => panic!("the first colon splits"),
    }
    match pick_provider_from_env(Some("no-colon-here")) {
        Ok(Provider::Json(p)) => assert_eq!(p, "snips/snippets.json"),
        _ => panic!("without a colon the default applies"),
    }
    match pick_provider_from_env(Some("yaml:a.yml")) {
        Err(AppError::InvalidProvider(m)) => {
            assert_eq!(m, "unknown kind 'YAML', expected JSON or SQLITE; raw=yaml:a.yml")
        }
        _ => panic!("unknown kinds are refused"),
    }
}

#[test]
fn provider_for_upper_kind() {
    assert!(matches!(provider_for_kind("JSON", "p", "raw"), Ok(Provider::Json(_))));
    assert!(matches!(provider_for_kind("SQLITE3", "p", "raw"), Ok(Provider::Sqlite(_))));
    assert!(matches!(provider_for_kind("json", "p", "raw"), Err(AppError::InvalidProvider(_))));
    let (k, p) = split_setting("  a  :  b  ");
    assert_eq!(k, "a");
    assert_eq!(p, "b");
}

#[test]
fn command_line_decisions() {
    assert!(matches!(parse_command(&args(&[])), Command::Usage));
    assert!(matches!(parse_command(&args(&["--list"])), Command::List));
    match parse_command(&args(&["--help"])) {
        Command::Fail(m) => assert_eq!(m, "unexpected argument '--help'"),
        _ => panic!("unknown flag"),
    }
    match parse_command(&args(&["--name"])) {
        Command::Fail(m) => assert_eq!(m, "a value is required for '--name'"),
        _ => panic!("flag without value"),
    }
    match parse_command(&args(&["--name", "???"])) {
        Command::Fail(m) => assert_eq!(m, "empty name after slug normalization"),
        _ => panic!("empty slug"),
    }
    match parse_command(&args(&["--backend", "yaml", "--list"])) {
        Command::Fail(m) => {
            assert_eq!(m, "invalid value 'yaml' for '--backend': expected json or sqlite")
        }
        _ => panic!("unknown backend"),
    }
    match parse_command(&args(&["--lang", "rust", "--name", "My Snip"])) {
        Command::Create { name, lang, source } => {
            assert_eq!(name, "my-snip");
            assert_eq!(lang.as_deref(), Some("rust"));
            assert!(matches!(source, Source::Stdin));
        }
        _ => panic!("create"),
    }
    match parse_command(&args(&["--name", "x", "--download", "http://h/p"])) {
        Command::Create { name, lang, source } => {
            assert_eq!(name, "x");
            assert!(lang.is_none());
            match source {
                Source::Download(u) => assert_eq!(u, "http://h/p"),
                Source::Stdin => panic!("download"),
            }
        }
        _ => panic!("create from a download"),
    }
    match parse_command(&args(&["--read", "My Snip"])) {
        Command::Read { name } => assert_eq!(name, "my-snip"),
        _ => panic!("read"),
    }
    match parse_command(&args(&["--name", "n", "--remove", "A B"])) {
        Command::Remove { name } => assert_eq!(name, "a-b"),
        _ => panic!("remove wins over name"),
    }
    assert!(matches!(parse_command(&args(&["--remove", "a", "--list"])), Command::List));
}

#[test]
fn timestamps_as_rfc3339() {
    let t = Timestamp { secs: 0, nanos: 0 };
    assert_eq!(t.to_rfc3339().unwrap(), "1970-01-01T00:00:00+00:00");
    let t = Timestamp { secs: 1_700_000_000, nanos: 500_000_000 };
    assert_eq!(t.to_rfc3339().unwrap(), "2023-11-14T22:13:20.500+00:00");
    assert!(Timestamp { secs: i64::MAX, nanos: 0 }.to_rfc3339().is_none());
    let back = Timestamp::parse_rfc3339("2023-11-14T23:13:20.5+01:00").unwrap();
    assert_eq!(back, Timestamp { secs: 1_700_000_000, nanos: 500_000_000 });
    assert!(Timestamp::parse_rfc3339("yesterday").is_err());
}

#[test]
fn rows_and_list_lines() {
    let s = snippet_from_row(
        "hello".to_string(),
        "rust".to_string(),
        "fn main() {}".to_string(),
        "1970-01-01T00:00:10+00:00",
    )
    .unwrap();
    assert_eq!(s.created_at, Timestamp { secs: 10, nanos: 0 });
    assert_eq!(s.code, "fn main() {}");
    assert_eq!(list_line(&s).unwrap(), "name: hello  lang: rust  created_at: 1970-01-01T00:00:10+00:00");
    assert_eq!(list_line_at(&s, "T"), "name: hello  lang: rust  created_at: T");
    assert!(snippet_from_row("a".into(), "b".into(), "c".into(), "not a time").is_err());
}
