use trycli::client::api::{api_base, ws_base};
use trycli::client::analytics::format_uptime;
use trycli::client::navbar::logo_href;
use trycli::client::hamburger::{or_default, GITHUB_URL};
use trycli::client::modal::{confirm_matches, delete_warning, confirm_press};
use trycli::client::admin::{
    stats_answer, StatsAnswer, analytics_path, stats_endpoint, all_projects_endpoint, kill_container_endpoint,
    delete_project_endpoint, kill_container_confirmation, delete_project_confirmation,
};
use trycli::client::terminal::{session_socket_url, connecting_banner};
use trycli::client::view::{
    project_load, ProjectLoad, project_url, is_owner, iframe_code, smart_link, vip_link, whitelist_endpoint,
    embed_key_endpoint, render_markdown, markdown_to_html,
};
use trycli::client::create::{accept_slug_input, slug_error, publish_failure_body, publish_enabled};
use trycli::client::dashboard::{
    suggestion_count, next_active, enter_action, EnterAction, new_project_path, owned_project_path, remove_project,
    project_list_state, ListFetch,
};
use trycli::client::types::ProjectSummary;

#[test]
fn api_bases_default_to_localhost() {
    assert_eq!(api_base(None), "http://localhost:3000");
    assert_eq!(api_base(Some("https://api.trycli.com")), "https://api.trycli.com");
    assert_eq!(ws_base(None), "ws://localhost:3000");
    assert_eq!(ws_base(Some("wss://api.trycli.com")), "wss://api.trycli.com");
}

#[test]
fn uptime_formats() {
    assert_eq!(format_uptime(0), "0s");
    assert_eq!(format_uptime(59), "59s");
    assert_eq!(format_uptime(60), "1m 0s");
    assert_eq!(format_uptime(3599), "59m 59s");
    assert_eq!(format_uptime(3600), "1h 0m");
    assert_eq!(format_uptime(7325), "2h 2m");
}

#[test]
fn logo_link() {
    assert_eq!(logo_href(None, "/dashboard"), "/");
    assert_eq!(logo_href(Some(false), "/x"), "/");
    assert_eq!(logo_href(Some(true), "/"), "/");
    assert_eq!(logo_href(Some(true), "/dashboard"), "/dashboard");
    assert_eq!(logo_href(Some(true), "/alice/demo"), "/dashboard");
}

#[test]
fn menu_defaults() {
    assert_eq!(or_default(String::new(), GITHUB_URL), "https://github.com/TryCli-Studio/trycli");
    assert_eq!(or_default("https://x".to_string(), GITHUB_URL), "https://x");
}

#[test]
fn delete_confirmation() {
    assert!(confirm_matches(" demo ", "demo"));
    assert!(!confirm_matches("dem", "demo"));
    assert_eq!(delete_warning("demo"), "This will permanently delete the snapshot 'demo' and cannot be undone.");
}

#[test]
fn terminal_texts() {
    assert_eq!(session_socket_url("ws://h:3000", "abc"), "ws://h:3000/ws/abc");
    assert_eq!(connecting_banner("abc"), "Connecting to session abc...\r\n");
}

#[test]
fn project_page_states() {
    assert!(project_load(403, true) == ProjectLoad::Unauthorized);
    assert!(project_load(429, false) == ProjectLoad::LimitReached);
    assert!(project_load(200, true) == ProjectLoad::Ready);
    assert!(project_load(200, false) == ProjectLoad::NotFound);
    assert!(project_load(404, true) == ProjectLoad::NotFound);
    assert!(project_load(500, true) == ProjectLoad::NotFound);
}

#[test]
fn project_page_links() {
    assert_eq!(project_url("http://api", "alice", "demo", ""), "http://api/api/project/alice/demo");
    assert_eq!(project_url("http://api", "alice", "demo", "k1"), "http://api/api/project/alice/demo?key=k1");
    assert!(is_owner(Some(1), Some(1)));
    assert!(!is_owner(Some(1), Some(2)));
    assert!(!is_owner(None, None));
    assert_eq!(
        iframe_code("https://app", "alice", "demo"),
        "<iframe src=\"https://app/embed/alice/demo\" width=\"100%\" height=\"500px\" frameborder=\"0\" allowtransparency=\"true\" loading=\"lazy\" allow=\"clipboard-read; clipboard-write\"></iframe>"
    );
    assert_eq!(smart_link("https://api", "tok"), "https://api/e/tok");
    assert_eq!(vip_link("https://app", "alice", "demo", ""), "");
    assert_eq!(vip_link("https://app", "alice", "demo", "k"), "https://app/alice/demo?key=k");
    assert_eq!(whitelist_endpoint("https://api", "demo"), "https://api/api/project/demo/whitelist");
    assert_eq!(embed_key_endpoint("https://api", "demo"), "https://api/api/project/demo/embed-key");
}

#[test]
fn markdown_renders_tables_and_strikethrough() {
    let html = render_markdown("# Title\n\n~~old~~\n\n| a | b |\n|---|---|\n| 1 | 2 |\n");
    assert!(html.contains("<h1>Title</h1>"));
    assert!(html.contains("<del>old</del>"));
    assert!(html.contains("<table>"));
    let plain = markdown_to_html("~~old~~", 0);
    assert!(!plain.contains("<del>"));
}

#[test]
fn slug_field() {
    assert_eq!(accept_slug_input("My-Tool2"), Some("my-tool2".to_string()));
    assert_eq!(accept_slug_input(""), Some(String::new()));
    assert_eq!(accept_slug_input("bad slug"), None);
    assert_eq!(accept_slug_input("émoji"), None);
    assert_eq!(slug_error(), "Only letters, numbers, and hyphens allowed");
    assert_eq!(publish_failure_body(409, "exists"), "409: exists");
}

#[test]
fn suggestion_navigation_wraps() {
    assert_eq!(suggestion_count(0, false), 1);
    assert_eq!(suggestion_count(0, true), 0);
    assert_eq!(suggestion_count(3, false), 3);
    assert_eq!(next_active(-1, 3, true), Some(0));
    assert_eq!(next_active(2, 3, true), Some(0));
    assert_eq!(next_active(-1, 3, false), Some(1));
    assert_eq!(next_active(0, 3, false), Some(2));
    assert_eq!(next_active(1, 3, false), Some(0));
    assert_eq!(next_active(-1, 1, false), Some(0));
    assert_eq!(next_active(0, 0, true), None);
    for a in -1..5i32 {
        for c in 1..6usize {
            assert_eq!(next_active(a, c, true), Some((a + 1).rem_euclid(c as i32)));
            assert_eq!(next_active(a, c, false), Some((a - 1).rem_euclid(c as i32)));
        }
    }
}

#[test]
fn enter_in_search() {
    assert!(matches!(enter_action(0, false, -1), EnterAction::CreateNew));
    assert!(matches!(enter_action(0, true, 0), EnterAction::Stay));
    assert!(matches!(enter_action(3, false, 1), EnterAction::Open(1)));
    assert!(matches!(enter_action(3, false, -1), EnterAction::Stay));
    assert!(matches!(enter_action(3, false, 3), EnterAction::Stay));
    assert_eq!(new_project_path("my%20tool"), "/new?name=my%20tool");
    assert_eq!(owned_project_path("alice", "demo"), "/alice/demo");
}

fn summary(slug: &str) -> ProjectSummary {
    ProjectSummary {
        slug: slug.to_string(),
        image_tag: String::new(),
        is_protected: false,
        view_count: 0,
        owner_username: "alice".to_string(),
    }
}

#[test]
fn deleted_project_leaves_list() {
    let mut list = vec![summary("a"), summary("b"), summary("a"), summary("c")];
    remove_project(&mut list, "a");
    let slugs: Vec<&str> = list.iter().map(|p| p.slug.as_str()).collect();
    assert_eq!(slugs, vec!["b", "c"]);
    remove_project(&mut list, "zzz");
    assert_eq!(list.len(), 2);
}

#[test]
fn arrow_keys_undo_each_other() {
    for c in 1..7usize {
        for a in 0..(c as i32) {
            let down = next_active(a, c, true).unwrap();
            assert_eq!(next_active(down, c, false), Some(a));
            let up = next_active(a, c, false).unwrap();
            assert_eq!(next_active(up, c, true), Some(a));
        }
    }
}

#[test]
fn publish_button_rule() {
    assert!(publish_enabled("sess-1", false, false));
    assert!(!publish_enabled("", false, false));
    assert!(!publish_enabled("sess-1", true, false));
    assert!(!publish_enabled("sess-1", false, true));
}

#[test]
fn project_list_fetch_outcomes() {
    let listed = project_list_state(ListFetch::Listed(vec![summary("a"), summary("b")])).unwrap();
    assert_eq!(listed.len(), 2);
    assert_eq!(listed[1].slug, "b");
    assert_eq!(project_list_state(ListFetch::Refused(500)).unwrap_err(), "Failed to fetch deployments");
    assert_eq!(project_list_state(ListFetch::Unreadable).unwrap_err(), "Failed to parse project list");
    assert_eq!(project_list_state(ListFetch::NetworkError).unwrap_err(), "Network error connecting to API");
}

#[test]
fn confirm_button_press() {
    assert_eq!(confirm_press(" demo ", "demo"), Ok(()));
    assert_eq!(confirm_press("other", "demo"), Err("Name does not match.".to_string()));
}

#[test]
fn admin_page_helpers() {
    assert_eq!(stats_answer(403), StatsAnswer::LeaveForAnalytics);
    assert_eq!(stats_answer(200), StatsAnswer::Authorized);
    assert_eq!(stats_answer(500), StatsAnswer::Ignored);
    assert_eq!(stats_answer(401), StatsAnswer::Ignored);
    assert_eq!(analytics_path(), "/analytics");
    assert_eq!(stats_endpoint("http://api"), "http://api/api/admin/stats");
    assert_eq!(all_projects_endpoint("http://api"), "http://api/api/admin/projects");
    assert_eq!(kill_container_endpoint("http://api", "c1"), "http://api/api/admin/container/c1");
    assert_eq!(delete_project_endpoint("http://api", "demo"), "http://api/api/admin/project/demo");
    assert_eq!(kill_container_confirmation("c1"), "Kill container c1?");
    assert_eq!(delete_project_confirmation("demo"), "DELETE project 'demo'?\nThis deletes the DB entry AND Docker image.");
}
