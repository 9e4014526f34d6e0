use trycli::session::{SessionContext, SessionTable, DropRule};

const SEC: u64 = 1_000_000_000;

fn builder(owner: i64, name: &str, at: u64) -> SessionContext {
    let mut c = SessionContext::builder_placeholder(Some(owner), at);
    c.container_name = name.to_string();
    c
}

fn viewer(project_owner: i64, slug: &str, name: &str, at: u64) -> SessionContext {
    let mut c = SessionContext::viewer("img".to_string(), "/bin/bash".to_string(), project_owner, slug.to_string(), at);
    c.container_name = name.to_string();
    c
}

#[test]
fn insert_replaces_same_id() {
    let mut t = SessionTable::new();
    assert_eq!(t.len(), 0);
    t.insert("s1".to_string(), builder(1, "c1", 0));
    t.insert("s2".to_string(), builder(2, "c2", 0));
    t.insert("s1".to_string(), builder(1, "c9", 0));
    assert_eq!(t.len(), 2);
    assert!(t.contains("s1"));
    assert_eq!(t.get("s1").unwrap().container_name, "c9");
    assert!(t.get("nope").is_none());
}

#[test]
fn remove_and_drop_rules() {
    let mut t = SessionTable::new();
    t.insert("a".to_string(), builder(1, "ca", 0));
    t.insert("b".to_string(), builder(2, "cb", 0));
    t.insert("c".to_string(), builder(3, "INITIALIZING", 0));
    let r = t.remove("a").unwrap();
    assert_eq!(r.container_name, "ca");
    assert!(t.remove("a").is_none());
    t.remove_container("cb");
    assert!(!t.contains("b"));
    t.insert("d".to_string(), builder(4, "cd", 0));
    t.insert("e".to_string(), builder(5, "ce", 0));
    t.remove_ghosts(vec!["ce".to_string()]);
    assert!(t.contains("c"));
    assert!(!t.contains("d"));
    assert!(t.contains("e"));
    t.drop_where(&DropRule::Id("e".to_string()));
    assert_eq!(t.len(), 1);
    t.drop_where(&DropRule::Container("INITIALIZING".to_string()));
    assert_eq!(t.len(), 0);
}

#[test]
fn viewers_are_counted_per_publisher() {
    let mut t = SessionTable::new();
    for i in 0..5 {
        t.insert(format!("v{}", i), viewer(7, "demo", &format!("cv{}", i), 0));
    }
    t.insert("w".to_string(), viewer(8, "other", "cw", 0));
    t.insert("b".to_string(), builder(7, "cb", 0));
    // The publisher's own builder session counts against the same limit.
    assert_eq!(t.count_viewers(7), 6);
    assert_eq!(t.count_viewers(8), 1);
    assert_eq!(t.count_viewers(9), 0);
    t.insert("v0".to_string(), viewer(7, "demo", "cv0", 0));
    assert_eq!(t.count_viewers(7), 6);
}

#[test]
fn live_metrics_list_owner_projects() {
    let mut t = SessionTable::new();
    t.insert("v1".to_string(), viewer(7, "demo", "cv1", 10 * SEC));
    t.insert("v2".to_string(), viewer(8, "x", "cv2", 10 * SEC));
    t.insert("b".to_string(), builder(7, "cb", 0));
    let m = t.live_metrics(7, 75 * SEC);
    assert_eq!(m.len(), 1);
    assert_eq!(m[0].slug, "demo");
    assert_eq!(m[0].uptime_seconds, 65);
    assert_eq!(m[0].container_name, "cv1");
}

#[test]
fn connect_publish_and_finish() {
    let mut t = SessionTable::new();
    t.insert("s".to_string(), builder(1, "c", 0));
    assert!(t.mark_connected("s"));
    assert!(!t.mark_connected("missing"));
    let e = t.begin_publish("s", 2).unwrap_err();
    assert_eq!((e.status, e.message.as_str()), (403, "You do not own this session"));
    let e = t.begin_publish("missing", 1).unwrap_err();
    assert_eq!((e.status, e.message.as_str()), (400, "Session expired"));
    let (name, shell) = t.begin_publish("s", 1).unwrap();
    assert_eq!(name, "c");
    assert_eq!(shell, "");
    assert!(t.get("s").unwrap().is_publishing);
    let (ctx, removed) = t.finish_session("s");
    assert!(ctx.is_some());
    assert!(!removed);
    assert!(t.contains("s"));
    t.insert("q".to_string(), builder(1, "cq", 0));
    let (_, removed) = t.finish_session("q");
    assert!(removed);
    assert!(!t.contains("q"));
    let (ctx, removed) = t.finish_session("zz");
    assert!(ctx.is_none() && !removed);
}

#[test]
fn websocket_access() {
    let mut t = SessionTable::new();
    t.insert("mine".to_string(), builder(1, "c", 0));
    t.insert("view".to_string(), viewer(7, "demo", "", 0));
    assert_eq!(t.ws_access("mine", Some(1)), Ok(()));
    assert_eq!(t.ws_access("mine", Some(2)), Err(403));
    assert_eq!(t.ws_access("mine", None), Err(403));
    assert_eq!(t.ws_access("view", None), Ok(()));
    assert_eq!(t.ws_access("new", None), Err(401));
    assert_eq!(t.ws_access("new", Some(5)), Ok(()));
}

#[test]
fn viewer_container_start() {
    let mut t = SessionTable::new();
    t.insert("v".to_string(), viewer(7, "demo", "", 0));
    assert_eq!(t.pending_spawn("v"), Some(("img".to_string(), "/bin/bash".to_string())));
    t.start_viewer("v", "trycli-studio-viewer-1".to_string());
    assert_eq!(t.pending_spawn("v"), None);
    assert_eq!(t.get("v").unwrap().container_name, "trycli-studio-viewer-1");
}

#[test]
fn builder_setup_claims_and_dedup() {
    let mut t = SessionTable::new();
    assert!(t.claim_for_setup("s", Some(1), 0));
    assert!(!t.claim_for_setup("s", Some(1), 0));
    assert_eq!(t.get("s").unwrap().container_name, "INITIALIZING");
    assert!(t.set_container_and_shell("s", "c1".to_string(), "/bin/zsh".to_string()));
    assert!(!t.set_container_and_shell("x", "c1".to_string(), "/bin/zsh".to_string()));
    assert_eq!(t.get("s").unwrap().shell, "/bin/zsh");
    t.insert("v".to_string(), viewer(1, "demo", "cv", 0));
    assert_eq!(t.take_builder_session(1), Some(("s".to_string(), "c1".to_string())));
    assert!(!t.contains("s"));
    assert!(t.contains("v"));
    assert_eq!(t.take_builder_session(1), None);
}

#[test]
fn abandoned_and_container_lookup() {
    let mut t = SessionTable::new();
    t.insert("old".to_string(), viewer(7, "demo", "c-old", 0));
    t.insert("new".to_string(), viewer(7, "demo", "c-new", 40 * SEC));
    let mut live = viewer(7, "demo", "c-live", 0);
    live.is_ws_connected = true;
    t.insert("live".to_string(), live);
    let a = t.abandoned_sessions(50 * SEC);
    assert_eq!(a, vec![("old".to_string(), "c-old".to_string())]);
    assert_eq!(t.container_names(), vec!["c-old".to_string(), "c-new".to_string(), "c-live".to_string()]);
    let (id, ctx) = t.session_for_container("c-new").unwrap();
    assert_eq!(id, "new");
    assert_eq!(ctx.created_at, 40 * SEC);
    assert!(t.session_for_container("none").is_none());
}

#[test]
fn claim_then_finish_leaves_table_unchanged() {
    let mut t = SessionTable::new();
    t.insert("a".to_string(), builder(1, "ca", 0));
    assert!(t.claim_for_setup("fresh", Some(2), 0));
    assert_eq!(t.len(), 2);
    let (ctx, removed) = t.finish_session("fresh");
    assert!(removed);
    assert_eq!(ctx.unwrap().container_name, "INITIALIZING");
    assert_eq!(t.len(), 1);
    assert!(t.contains("a"));
    assert!(!t.contains("fresh"));
}

#[test]
fn remove_after_insert_restores() {
    let mut t = SessionTable::new();
    t.insert("a".to_string(), builder(1, "ca", 0));
    t.insert("b".to_string(), viewer(2, "x", "cb", 0));
    t.remove("b");
    assert_eq!(t.len(), 1);
    assert_eq!(t.get("a").unwrap().container_name, "ca");
    assert!(t.get("b").is_none());
}
