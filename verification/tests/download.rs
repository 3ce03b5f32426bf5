use rust_labs::download::{download_target, parse_reply, request_for};
use rust_labs::logging::{keeps_record, level_rank_of};

#[test]
fn download_targets() {
    assert_eq!(
        download_target("http://127.0.0.1:8080/snippet?x=1").unwrap(),
        ("127.0.0.1".to_string(), 8080, "/snippet?x=1".to_string())
    );
    assert_eq!(download_target("http://example.org/p").unwrap(), ("example.org".to_string(), 80, "/p".to_string()));
    assert_eq!(download_target("http://example.org").unwrap().2, "/");
    assert_eq!(
        download_target("https://example.org/p").unwrap_err(),
        "only http:// downloads are supported: https://example.org/p"
    );
    assert_eq!(download_target("not a url").unwrap_err(), "invalid URL: not a url");
}

#[test]
fn download_requests() {
    assert_eq!(
        request_for("h", "/s?q"),
        "GET /s?q HTTP/1.0\r\nHost: h\r\nConnection: close\r\n\r\n"
    );
}

#[test]
fn http_replies() {
    let r = parse_reply(&b"HTTP/1.1 200 OK\r\nContent-Length: 9\r\n\r\nfrom-http".to_vec()).unwrap();
    assert_eq!(r, (200, b"from-http".to_vec()));
    let r = parse_reply(&b"HTTP/1.0 404 Not Found\r\n\r\n".to_vec()).unwrap();
    assert_eq!(r, (404, Vec::new()));
    let r = parse_reply(&b"HTTP/1.1 204\r\n\r\nx\r\n\r\ny".to_vec()).unwrap();
    assert_eq!(r, (204, b"x\r\n\r\ny".to_vec()));
    assert!(parse_reply(&b"HTTP/1.1 200 OK\r\nno end".to_vec()).is_none());
    assert!(parse_reply(&b"HTTP/1.1 2x0 OK\r\n\r\n".to_vec()).is_none());
    assert!(parse_reply(&b"SMTP/1.1 200 OK\r\n\r\n".to_vec()).is_none());
    assert!(parse_reply(&Vec::new()).is_none());
}

#[test]
fn log_levels() {
    assert_eq!(level_rank_of("trace"), 0);
    assert_eq!(level_rank_of(" DEBUG "), 1);
    assert_eq!(level_rank_of("Info"), 2);
    assert_eq!(level_rank_of("warning"), 3);
    assert_eq!(level_rank_of("WARN"), 3);
    assert_eq!(level_rank_of("error"), 4);
    assert_eq!(level_rank_of("bogus"), 2);
    assert!(keeps_record("info", "debug"));
    assert!(!keeps_record("debug", "info"));
    assert!(keeps_record("error", "warn"));
}
