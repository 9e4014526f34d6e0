use trycli::embed::{
    vip_key_matches, embed_referer, embed_gate, EmbedGate, viewer_admission, embed_key_owner_check,
    embed_key_result, url_encode, secret_embed_html, oembed_plan, oembed_rich, oembed_link, oembed_answer,
    OEmbedRequest, MAX_VIEWERS_PER_PUBLISHER,
};
use trycli::models::OEmbedResponse;

#[test]
fn vip_key_compares_trimmed() {
    assert!(vip_key_matches(Some("  abc "), Some("abc")));
    assert!(!vip_key_matches(Some("abd"), Some("abc")));
    assert!(!vip_key_matches(None, Some("abc")));
    assert!(!vip_key_matches(Some("abc"), None));
}

#[test]
fn vip_key_reads_spaces_as_plus() {
    assert!(vip_key_matches(Some("a b+c"), Some("a+b+c")));
    assert!(!vip_key_matches(Some("a+b"), Some("a b")));
}

#[test]
fn embed_referer_prefers_readable_x_embed() {
    assert_eq!(embed_referer(Some(b"https://blog.example/p"), Some(b"https://other")), Some("https://blog.example/p".to_string()));
    assert_eq!(embed_referer(Some(b"\x01"), Some(b"https://other")), Some("https://other".to_string()));
    assert_eq!(embed_referer(None, Some(b"https://other")), Some("https://other".to_string()));
    assert_eq!(embed_referer(None, None), None);
}

#[test]
fn gate_opens_for_owner_public_and_vip() {
    assert!(matches!(embed_gate(Some(7), 7, false, None, None, None, None), EmbedGate::Open));
    assert!(matches!(embed_gate(None, 7, true, None, None, None, None), EmbedGate::Open));
    assert!(matches!(embed_gate(Some(8), 7, false, Some("k"), Some("k"), None, None), EmbedGate::Open));
}

#[test]
fn gate_checks_normalized_whitelist_location() {
    match embed_gate(None, 7, false, None, None, None, Some(b"https://blog.example/post/?utm=1")) {
        EmbedGate::CheckWhitelist { location, blocked_origin } => {
            assert_eq!(location, "https://blog.example/post");
            assert_eq!(blocked_origin, "https://blog.example/post/?utm=1");
        }
        _ => panic!("expected a whitelist check"),
    }
}

#[test]
fn gate_blocks_unknown_and_unnormalizable_pages() {
    match embed_gate(None, 7, false, None, None, None, None) {
        EmbedGate::Blocked { blocked_origin } => assert_eq!(blocked_origin, "Unknown Domain"),
        _ => panic!("expected a block"),
    }
    match embed_gate(Some(3), 7, false, Some("x"), Some("y"), None, Some(b"file:///etc")) {
        EmbedGate::Blocked { blocked_origin } => assert_eq!(blocked_origin, "file:///etc"),
        _ => panic!("expected a block"),
    }
}

#[test]
fn viewer_limit_is_five() {
    assert_eq!(MAX_VIEWERS_PER_PUBLISHER, 5);
    for n in 0..5 {
        assert!(viewer_admission(n).is_ok());
    }
    let e = viewer_admission(5).unwrap_err();
    assert_eq!(e.status, 429);
    assert_eq!(e.message, "Publisher limit reached");
    assert!(viewer_admission(9).is_err());
}

#[test]
fn embed_key_only_for_owner() {
    assert!(embed_key_owner_check(4, 4).is_ok());
    let e = embed_key_owner_check(4, 5).unwrap_err();
    assert_eq!((e.status, e.message.as_str()), (404, "Project not found"));
    assert_eq!(embed_key_result(Some("k1".to_string())).unwrap(), "k1");
    let e = embed_key_result(None).unwrap_err();
    assert_eq!((e.status, e.message.as_str()), (500, "Failed to retrieve or generate embed key"));
}

#[test]
fn url_encode_percent_encodes() {
    assert_eq!(url_encode("a b&c=d/é~-._"), "a%20b%26c%3Dd%2F%C3%A9~-._");
    assert_eq!(url_encode("plain"), "plain");
}

#[test]
fn secret_page_redirects_to_embed() {
    let html = secret_embed_html("https://api.x", "https://app.x", "tok", "alice", "demo", Some("k y"));
    let target = "https://app.x/embed/alice/demo?key=k%20y";
    assert!(html.starts_with("<!DOCTYPE html>\n<html>\n<head>\n    <title>TryCLI Interactive Demo</title>"));
    assert!(html.contains("href=\"https://api.x/api/oembed?url=https://api.x/e/tok\""));
    assert!(html.contains(&format!("content=\"0;url={}\"", target)));
    assert!(html.contains(&format!("window.location.href = \"{}\";", target)));
    assert!(html.ends_with("</html>"));
    let plain = secret_embed_html("https://api.x", "https://app.x", "tok", "alice", "demo", None);
    assert!(plain.contains("content=\"0;url=https://app.x/embed/alice/demo\""));
}

#[test]
fn oembed_plan_reads_segments() {
    let req = OEmbedRequest { url: "https://api.x/e/tok123".to_string() };
    let (tok, prof) = oembed_plan(&req.url).unwrap();
    assert_eq!(tok, Some("tok123".to_string()));
    assert_eq!(prof, Some(("e".to_string(), "tok123".to_string())));
    let (tok, prof) = oembed_plan("https://app.x/alice/demo").unwrap();
    assert_eq!(tok, None);
    assert_eq!(prof, Some(("alice".to_string(), "demo".to_string())));
    let (tok, prof) = oembed_plan("https://app.x/alice").unwrap();
    assert_eq!((tok, prof), (None, None));
    let e = oembed_plan("::nope").unwrap_err();
    assert_eq!((e.status, e.message.as_str()), (400, "Invalid URL"));
}

#[test]
fn oembed_rich_fields() {
    match oembed_rich("https://app.x", "alice", "demo") {
        OEmbedResponse::Rich { version, title, author_name, author_url, provider_name, provider_url, html, width, height } => {
            assert_eq!(version, "1.0");
            assert_eq!(title, "Interactive Demo: demo");
            assert_eq!(author_name, "alice");
            assert_eq!(author_url, "https://app.x/alice");
            assert_eq!(provider_name, "TryCLI Studio");
            assert_eq!(provider_url, "https://app.x");
            assert!(html.starts_with("<iframe src=\"https://app.x/embed/alice/demo\" width=\"800\""));
            assert_eq!((width, height), (800, 500));
        }
        _ => panic!("expected rich"),
    }
}

#[test]
fn oembed_link_fields() {
    match oembed_link("https://app.x", "bob", "tool") {
        OEmbedResponse::Link { title, author_url, thumbnail_url, .. } => {
            assert_eq!(title, "Demo: tool");
            assert_eq!(author_url, "https://app.x/bob");
            assert_eq!(thumbnail_url, Some("https://trycli.com/logo_black.png".to_string()));
        }
        _ => panic!("expected link"),
    }
}

#[test]
fn oembed_answer_choices() {
    let r = oembed_answer("https://app.x", Some(("demo".to_string(), "alice".to_string())), None, false).unwrap();
    assert!(matches!(r, OEmbedResponse::Rich { .. }));
    let r = oembed_answer("https://app.x", None, Some(("bob".to_string(), "tool".to_string())), true).unwrap();
    assert!(matches!(r, OEmbedResponse::Link { .. }));
    let e = oembed_answer("https://app.x", None, Some(("bob".to_string(), "tool".to_string())), false).unwrap_err();
    assert_eq!((e.status, e.message.as_str()), (404, "No embeddable project found"));
    let e = oembed_answer("https://app.x", None, None, true).unwrap_err();
    assert_eq!(e.status, 404);
}

#[test]
fn vip_key_after_query_decoding() {
    let key = "Ab+cD/e+f9";
    let decoded = key.replace('+', " ");
    assert!(vip_key_matches(Some(&decoded), Some(key)));
    // A key that ends in `+` loses it to trimming once decoded, and no longer matches.
    let edge = "Ab+cd+";
    assert!(!vip_key_matches(Some(&edge.replace('+', " ")), Some(edge)));
}

#[test]
fn secret_link_key_decodes_back() {
    let key = "a+b/c= é";
    let encoded = url_encode(key);
    let decoded = urlencoding::decode(&encoded).unwrap();
    assert_eq!(decoded, key);
}
