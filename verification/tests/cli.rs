use rust_labs::cli::{
    choose_provider, code_to_save, command_from_flags, decimal_text, downloaded_code,
    parse_command, removed_report, saved_report, scan_flags, Command, Source,
};
use rust_labs::provider::Provider;
use rust_labs::snippets::{
    list_line, row_columns, snippet_from_row, stored_and_read_back, JsonFile, Snippet, Timestamp,
};

fn args(a: &[&str]) -> Vec<String> {
    a.iter().map(|s| s.to_string()).collect()
}

fn new_snip(name: &str, lang: &str, code: &str) -> Snippet {
    Snippet {
        name: name.to_string(),
        lang: lang.to_string(),
        code: code.to_string(),
        created_at: Timestamp { secs: 1_700_000_000, nanos: 0 },
    }
}

/// The steps `--name` takes on a JSON file, past reading the code.
fn save(file: &mut JsonFile, a: &[&str], code: &str) -> String {
    match parse_command(&args(a)) {
        Command::Create { name, lang, source } => {
            assert!(matches!(source, Source::Stdin));
            let code = code_to_save(code.to_string()).unwrap();
            let s = Snippet {
                name: name.clone(),
                lang: lang.unwrap_or_default(),
                code,
                created_at: Timestamp { secs: 1_700_000_000, nanos: 0 },
            };
            file.create(&s);
            saved_report(&name)
        }
        _ => panic!("expected a save"),
    }
}

fn json_provider(a: &[&str]) -> String {
    let flags = scan_flags(&args(a)).unwrap();
    match choose_provider(&flags, None).unwrap() {
        Provider::Json(p) => p,
        Provider::Sqlite(_) => panic!("expected the JSON store"),
    }
}

#[test]
fn given_empty_store_when_list_then_prints_nothing() {
    let a = ["--backend", "json", "--json-path", "/tmp/t/snippets.json", "--list"];
    assert_eq!(json_provider(&a), "/tmp/t/snippets.json");
    assert!(matches!(parse_command(&args(&a)), Command::List));
    assert!(JsonFile::default().list().is_empty());
}

#[test]
fn given_existing_snippet_when_create_with_same_name_then_overwrites() {
    let mut f = JsonFile::default();
    for body in ["one", "two"] {
        save(&mut f, &["--backend", "json", "--json-path", "p", "--name", "dup", "--lang", "text"], body);
    }
    assert_eq!(f.snippets[0].code, "two");
}

#[test]
fn create_snippet_via_stdin_json_backend() {
    let mut f = JsonFile::default();
    let out = save(
        &mut f,
        &["--backend", "json", "--json-path", "p", "--name", "hello", "--lang", "rust"],
        "fn main() {}",
    );
    assert!(out.contains("Saved snippet 'hello'"));
    assert_eq!(f.snippets.len(), 1);
    assert_eq!(f.snippets[0].name, "hello");
    assert_eq!(f.snippets[0].lang, "rust");
    assert_eq!(f.snippets[0].code, "fn main() {}");
    assert!(f.snippets[0].created_at.to_rfc3339().unwrap().len() > 10);
}

#[test]
fn overwrite_existing_snippet_updates_content() {
    let mut f = JsonFile::default();
    for body in ["v1", "v2"] {
        save(&mut f, &["--backend", "json", "--json-path", "p", "--name", "same", "--lang", "text"], body);
    }
    assert_eq!(f.snippets.len(), 1, "should overwrite (not append duplicate)");
    assert_eq!(f.snippets[0].code, "v2");
}

#[test]
fn list_prints_all_snippets_in_desc_order() {
    let mut f = JsonFile::default();
    for (name, body) in [("a", "alpha"), ("b", "beta")] {
        save(&mut f, &["--backend", "json", "--json-path", "p", "--name", name, "--lang", "text"], body);
    }
    assert!(matches!(
        parse_command(&args(&["--backend", "json", "--json-path", "p", "--list"])),
        Command::List
    ));
    let out: Vec<String> = f.list().iter().map(|s| list_line(s).unwrap()).collect();
    let out = out.join("\n");
    assert!(out.contains("name: a"));
    assert!(out.contains("name: b"));
}

#[test]
fn remove_existing_snippet_reports_and_deletes() {
    let mut f = JsonFile::default();
    save(&mut f, &["--backend", "json", "--json-path", "p", "--name", "x", "--lang", "text"], "content");
    let name = match parse_command(&args(&["--backend", "json", "--json-path", "p", "--remove", "x"])) {
        Command::Remove { name } => name,
        _ => panic!("expected a removal"),
    };
    let removed = f.delete(&name);
    assert!(removed_report(&name, removed).contains("Removed 'x'"));
    assert!(f.list().is_empty());
}

#[test]
fn remove_nonexistent_reports_politely() {
    let mut f = JsonFile::default();
    let name = match parse_command(&args(&["--backend", "json", "--json-path", "p", "--remove", "nope"])) {
        Command::Remove { name } => name,
        _ => panic!("expected a removal"),
    };
    let removed = f.delete(&name);
    assert!(removed_report(&name, removed).contains("No snippet named 'nope'"));
}

#[test]
fn missing_name_errors_without_list_or_remove() {
    match parse_command(&args(&["--backend", "json", "--json-path", "p"])) {
        Command::Fail(m) => assert!(m.contains("--name <NAME> is required")),
        _ => panic!("expected a failure"),
    }
}

#[test]
fn sqlite_backend_roundtrip_create_list_remove() {
    let a = ["--backend", "sqlite", "--sqlite-path", "/tmp/t/snippets.sqlite3", "--name", "sql", "--lang", "sql"];
    let flags = scan_flags(&args(&a)).unwrap();
    match choose_provider(&flags, Some("JSON:elsewhere.json")).unwrap() {
        Provider::Sqlite(p) => assert_eq!(p, "/tmp/t/snippets.sqlite3"),
        Provider::Json(_) => panic!("--backend wins over the setting"),
    }
    let s = match command_from_flags(&flags) {
        Command::Create { name, lang, .. } => {
            assert!(saved_report(&name).contains("Saved snippet 'sql'"));
            new_snip(&name, &lang.unwrap(), "select 1;")
        }
        _ => panic!("expected a save"),
    };
    let (name, lang, code, at) = row_columns(&s).unwrap();
    let back = snippet_from_row(name, lang, code, &at).unwrap();
    assert!(list_line(&back).unwrap().contains("name: sql"));
    assert!(removed_report(&back.name, true).contains("Removed 'sql'"));
}

#[test]
fn download_uses_http_body_as_snippet_code() {
    let c = parse_command(&args(&["--backend", "json", "--json-path", "p", "--name", "net", "--download", "http://127.0.0.1:1/snippet"]));
    match c {
        Command::Create { source: Source::Download(u), .. } => assert_eq!(u, "http://127.0.0.1:1/snippet"),
        _ => panic!("expected a download"),
    }
    assert_eq!(downloaded_code(200, "from-http".to_string()).unwrap(), "from-http");
}

#[test]
fn download_non_200_fails() {
    assert!(downloaded_code(404, "missing".to_string()).unwrap_err().contains("HTTP 404"));
    assert_eq!(downloaded_code(500, String::new()).unwrap_err(), "HTTP 500");
}

#[test]
fn empty_stdin_errors_with_hint() {
    let m = code_to_save(String::new()).unwrap_err();
    assert!(m.contains("no data in STDIN; pass --download <URL> or pipe content"));
    assert!(code_to_save(" \n\t".to_string()).is_err());
    assert_eq!(code_to_save(" x ".to_string()).unwrap(), " x ");
}

#[test]
fn decimal_digits() {
    assert_eq!(decimal_text(0), "0");
    assert_eq!(decimal_text(7), "7");
    assert_eq!(decimal_text(404), "404");
    assert_eq!(decimal_text(65535), "65535");
}

#[test]
fn providers_by_flag_and_default_paths() {
    assert_eq!(json_provider(&["--backend", "json"]), "snips/snippets.json");
    let flags = scan_flags(&args(&["--backend", "sqlite"])).unwrap();
    match choose_provider(&flags, None).unwrap() {
        Provider::Sqlite(p) => assert_eq!(p, "snips/snippets.sqlite"),
        _ => panic!("sqlite default"),
    }
    let flags = scan_flags(&args(&["--list"])).unwrap();
    match choose_provider(&flags, Some("SQLITE:/x.db")).unwrap() {
        Provider::Sqlite(p) => assert_eq!(p, "/x.db"),
        _ => panic!("the setting decides without --backend"),
    }
}

#[test]
fn stored_rows_read_back_unchanged() {
    let s = new_snip("a", "rust", "fn x() {}");
    let back = stored_and_read_back(&s).unwrap();
    assert_eq!(back.name, "a");
    assert_eq!(back.created_at, s.created_at);
    let mut late = new_snip("b", "", "");
    late.created_at = Timestamp { secs: 253402300800, nanos: 0 };
    assert!(stored_and_read_back(&late).is_none());
}

#[test]
fn removal_reports() {
    assert_eq!(removed_report("x", true), "Removed 'x'");
    assert_eq!(removed_report("x", false), "No snippet named 'x'");
    assert_eq!(saved_report("hello"), "Saved snippet 'hello'");
}
