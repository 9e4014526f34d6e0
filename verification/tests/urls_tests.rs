use trycli::urls::{normalize_url, parse_url, validate_csrf_protection, header_value_text, origin_string};

#[test]
fn normalize_drops_query() {
    assert_eq!(normalize_url("https://example.com/path?bypass=1"), Some("https://example.com/path".to_string()));
}

#[test]
fn normalize_drops_fragment() {
    assert_eq!(normalize_url("https://example.com/path#fragment"), Some("https://example.com/path".to_string()));
}

#[test]
fn normalize_drops_trailing_slashes() {
    assert_eq!(normalize_url("https://example.com/path/"), Some("https://example.com/path".to_string()));
    assert_eq!(normalize_url("https://example.com/path///"), Some("https://example.com/path".to_string()));
}

#[test]
fn normalize_keeps_root() {
    assert_eq!(normalize_url("https://example.com"), Some("https://example.com/".to_string()));
    assert_eq!(normalize_url("https://example.com/"), Some("https://example.com/".to_string()));
}

#[test]
fn normalize_keeps_explicit_port() {
    assert_eq!(normalize_url("http://localhost:8080/app"), Some("http://localhost:8080/app".to_string()));
}

#[test]
fn normalize_drops_default_port_and_lowercases_host() {
    assert_eq!(normalize_url("https://Example.COM:443/a"), Some("https://example.com/a".to_string()));
}

#[test]
fn normalize_refuses_other_schemes_and_garbage() {
    assert_eq!(normalize_url("ftp://example.com/file"), None);
    assert_eq!(normalize_url("not a url"), None);
    assert_eq!(normalize_url(""), None);
}

#[test]
fn parse_url_reads_parts() {
    let u = parse_url("https://example.com:8443/alice/demo?x=1").unwrap();
    assert_eq!(u.scheme, "https");
    assert_eq!(u.host, Some("example.com".to_string()));
    assert_eq!(u.port, Some(8443));
    assert_eq!(u.path, "/alice/demo");
    assert_eq!(u.segments, Some(vec!["alice".to_string(), "demo".to_string()]));
    assert_eq!(origin_string(&u), Some("https://example.com:8443".to_string()));
}

#[test]
fn header_text_accepts_visible_ascii_only() {
    assert_eq!(header_value_text(b"https://a.example"), Some("https://a.example".to_string()));
    assert_eq!(header_value_text(b"bad\x01value"), None);
    assert_eq!(header_value_text(&[0xC3, 0xA9]), None);
}

#[test]
fn csrf_accepts_matching_origin() {
    let r = validate_csrf_protection("https://app.example.com", Some(b"https://app.example.com"), None);
    assert!(r.is_ok());
}

#[test]
fn csrf_refuses_other_origin() {
    let e = validate_csrf_protection("https://app.example.com", Some(b"https://evil.example"), None).unwrap_err();
    assert_eq!(e.status, 403);
    assert_eq!(e.message, "CSRF validation failed: Origin mismatch");
}

#[test]
fn csrf_refuses_unreadable_origin() {
    let e = validate_csrf_protection("https://app.example.com", Some(b"\x01"), None).unwrap_err();
    assert_eq!(e.status, 400);
    assert_eq!(e.message, "Invalid Origin header");
}

#[test]
fn csrf_accepts_referer_prefix() {
    let r = validate_csrf_protection("https://app.example.com/", None, Some(b"https://app.example.com/dashboard"));
    assert!(r.is_ok());
}

#[test]
fn csrf_refuses_other_referer() {
    let e = validate_csrf_protection("https://app.example.com", None, Some(b"https://evil.example/x")).unwrap_err();
    assert_eq!(e.status, 403);
    assert_eq!(e.message, "CSRF validation failed: Referer mismatch");
}

#[test]
fn csrf_refuses_unreadable_referer() {
    let e = validate_csrf_protection("https://app.example.com", None, Some(b"\x7f")).unwrap_err();
    assert_eq!(e.status, 400);
    assert_eq!(e.message, "Invalid Referer header");
}

#[test]
fn csrf_refuses_missing_headers() {
    let e = validate_csrf_protection("https://app.example.com", None, None).unwrap_err();
    assert_eq!(e.status, 403);
    assert_eq!(e.message, "CSRF validation failed: Missing Origin or Referer header");
}

#[test]
fn csrf_reports_bad_configuration() {
    let e = validate_csrf_protection("not a url", Some(b"https://app.example.com"), None).unwrap_err();
    assert_eq!(e.status, 500);
    assert_eq!(e.message, "Invalid FRONTEND_URL configuration");
}

#[test]
fn csrf_origin_takes_precedence_over_referer() {
    let e = validate_csrf_protection(
        "https://app.example.com",
        Some(b"https://evil.example"),
        Some(b"https://app.example.com/dashboard"),
    )
    .unwrap_err();
    assert_eq!(e.status, 403);
}

#[test]
fn normalize_path_of_only_slashes() {
    // A path made only of slashes, other than the root itself, loses all of them.
    assert_eq!(normalize_url("https://example.com//"), Some("https://example.com".to_string()));
    assert_eq!(normalize_url("https://example.com/"), Some("https://example.com/".to_string()));
}

#[test]
fn csrf_refuses_look_alike_referer() {
    let e = validate_csrf_protection("http://localhost:8080", None, Some(b"http://localhost:8080.evil.com/attack"))
        .unwrap_err();
    assert_eq!(e.status, 403);
    assert_eq!(e.message, "CSRF validation failed: Referer mismatch");
    assert!(validate_csrf_protection("http://localhost:8080", None, Some(b"http://localhost:8080")).is_ok());
    assert!(validate_csrf_protection("http://localhost:8080", None, Some(b"http://localhost:8080/new")).is_ok());
    assert!(validate_csrf_protection("http://localhost:8080", None, Some(b"http://localhost:80800/x")).is_err());
}
