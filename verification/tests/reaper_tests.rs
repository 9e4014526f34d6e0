use trycli::reaper::{
    existing_container_names, is_known_container, primary_name, zombie_expired, network_abuse, project_of,
    session_duration, session_end_record, zombie_containers, ListedContainer, ZOMBIE_GRACE_SECS, ABANDON_AFTER_SECS, NETWORK_LIMIT_BYTES,
};
use trycli::session::SessionContext;

const SEC: u64 = 1_000_000_000;

fn viewer_ctx(connected: bool) -> SessionContext {
    let mut c = SessionContext::viewer("img".to_string(), "/bin/bash".to_string(), 7, "demo".to_string(), 5 * SEC);
    c.is_ws_connected = connected;
    c
}

#[test]
fn container_names_lose_leading_slash() {
    let names = existing_container_names(&vec![
        vec!["/a".to_string(), "//b".to_string()],
        vec![],
        vec!["c".to_string()],
    ]);
    assert_eq!(names, vec!["a".to_string(), "b".to_string(), "c".to_string()]);
    assert_eq!(primary_name(&vec!["/x".to_string(), "/y".to_string()]), "x");
    assert_eq!(primary_name(&vec![]), "");
}

#[test]
fn known_containers() {
    let sessions = vec!["trycli-studio-session-1".to_string()];
    assert!(is_known_container(&vec!["/other".to_string(), "/trycli-studio-session-1".to_string()], &sessions));
    assert!(!is_known_container(&vec!["/trycli-studio-session-2".to_string()], &sessions));
    assert!(!is_known_container(&vec![], &sessions));
}

#[test]
fn zombie_grace_period() {
    assert_eq!(ZOMBIE_GRACE_SECS, 30);
    assert_eq!(ABANDON_AFTER_SECS, 45);
    assert!(!zombie_expired(100, 130));
    assert!(zombie_expired(100, 131));
    assert!(!zombie_expired(100, 90));
}

#[test]
fn network_limit_is_one_gibibyte() {
    assert_eq!(NETWORK_LIMIT_BYTES, 1024 * 1024 * 1024);
    assert!(!network_abuse(&vec![]));
    assert!(!network_abuse(&vec![(NETWORK_LIMIT_BYTES / 2, NETWORK_LIMIT_BYTES / 2)]));
    assert!(network_abuse(&vec![(NETWORK_LIMIT_BYTES / 2, 0), (NETWORK_LIMIT_BYTES / 2, 1)]));
}

#[test]
fn session_end_is_recorded_for_connected_viewers() {
    let c = viewer_ctx(true);
    assert_eq!(project_of(&c), Some((7, "demo".to_string())));
    assert_eq!(session_duration(&c, 5 * SEC + 61 * SEC + 5), 61);
    assert_eq!(session_duration(&c, 0), 0);
    assert_eq!(session_end_record(&c, 15 * SEC), Some((7, "demo".to_string(), 10)));
    assert_eq!(session_end_record(&viewer_ctx(false), 15 * SEC), None);
    let b = SessionContext::builder_placeholder(Some(3), 0);
    assert_eq!(project_of(&b), None);
    assert_eq!(session_end_record(&b, 15 * SEC), None);
}

#[test]
fn zombies_of_one_pass() {
    let listed = vec![
        ListedContainer { id: Some("old".to_string()), names: vec!["/stray".to_string()], created: 100 },
        ListedContainer { id: Some("young".to_string()), names: vec!["/stray2".to_string()], created: 120 },
        ListedContainer { id: Some("live".to_string()), names: vec!["/trycli-studio-session-1".to_string()], created: 0 },
        ListedContainer { id: None, names: vec!["/noid".to_string()], created: 0 },
    ];
    let sessions = vec!["trycli-studio-session-1".to_string()];
    assert_eq!(zombie_containers(&listed, &sessions, 140), vec!["old".to_string()]);
    assert_eq!(zombie_containers(&listed, &sessions, 151), vec!["old".to_string(), "young".to_string()]);
}
