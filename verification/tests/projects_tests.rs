use trycli::projects::{
    require_user, rows_touched, publish_slug, publish_image_names, registry_tag_address, registry_delete_done,
    search_pattern, SearchQuery, container_to_remove, published_message, project_page,
};
use trycli::models::{User, PublishRequest};

#[test]
fn sign_in_required() {
    let u = User { id: 1, login: "a".to_string(), avatar_url: String::new() };
    assert_eq!(require_user(Some(u), "Please login first").unwrap().id, 1);
    let e = require_user::<User>(None, "Not authenticated").unwrap_err();
    assert_eq!((e.status, e.message.as_str()), (401, "Not authenticated"));
}

#[test]
fn rows_touched_or_404() {
    assert!(rows_touched(1, "Project not found").is_ok());
    let e = rows_touched(0, "Project not found").unwrap_err();
    assert_eq!((e.status, e.message.as_str()), (404, "Project not found"));
}

#[test]
fn publish_slug_is_trimmed_lowercase() {
    let req = PublishRequest { container_id: "s1".to_string(), slug: "  My-Tool ".to_string(), markdown: String::new() };
    assert_eq!(publish_slug(&req.slug), "my-tool");
}

#[test]
fn registry_names() {
    assert_eq!(registry_delete_done(202), true);
    assert_eq!(registry_delete_done(404), true);
    assert_eq!(registry_delete_done(500), false);
    assert_eq!(registry_delete_done(199), false);
    assert_eq!(
        registry_tag_address("trycli", "demo"),
        "https://api.digitalocean.com/v2/registry/trycli/repositories/projects/tags/demo"
    );
    let (a, b, c) = publish_image_names(false, "registry.digitalocean.com/trycli", "demo");
    assert_eq!((a.as_str(), b.as_str(), c.as_str()), ("trycli-studio-projects", "demo", "trycli-studio-projects:demo"));
    let (a, b, c) = publish_image_names(true, "registry.digitalocean.com/trycli", "demo");
    assert_eq!(a, "registry.digitalocean.com/trycli/projects");
    assert_eq!(b, "demo");
    assert_eq!(c, "registry.digitalocean.com/trycli/projects:demo");
}

#[test]
fn search_pattern_wraps_query() {
    assert_eq!(search_pattern("cli"), "%cli%");
    assert_eq!(SearchQuery::new("x y".to_string()).pattern(), "%x y%");
}

#[test]
fn initializing_builder_is_not_removed() {
    assert!(!container_to_remove("INITIALIZING"));
    assert!(container_to_remove("trycli-studio-session-1"));
    assert_eq!(published_message(), "Published!");
}

#[test]
fn project_page_gives_token_to_owner_only() {
    let p = project_page("# Hi".to_string(), 7, "sess".to_string(), false, true, Some("tok".to_string()));
    assert_eq!(p.markdown, "# Hi");
    assert_eq!(p.owner_id, 7);
    assert_eq!(p.container_id, "sess");
    assert!(!p.is_public);
    assert_eq!(p.embed_token, Some("tok".to_string()));
    let p = project_page("# Hi".to_string(), 7, "sess".to_string(), true, false, Some("tok".to_string()));
    assert_eq!(p.embed_token, None);
    assert!(p.is_public);
}
