use trycli::admin::{check_admin, container_info, deleted_message, killed_message};
use trycli::error::AppError;
use trycli::models::User;

fn user(login: &str) -> User {
    User { id: 9, login: login.to_string(), avatar_url: String::new() }
}

#[test]
fn admin_logins_case_insensitive() {
    assert!(check_admin(Some(&user("KarthikeyJoshi"))).is_ok());
    assert!(check_admin(Some(&user("yashb404"))).is_ok());
    assert!(check_admin(Some(&user("Rakshat28"))).is_ok());
    let e = check_admin(Some(&user("mallory"))).unwrap_err();
    assert_eq!((e.status, e.message.as_str()), (403, "Admin access only"));
    let e = check_admin(None).unwrap_err();
    assert_eq!((e.status, e.message.as_str()), (401, "Please login first"));
}

#[test]
fn container_listing() {
    let c = container_info(
        Some("abc".to_string()),
        vec!["/trycli-studio-session-1".to_string(), "/alias".to_string()],
        Some("running".to_string()),
        None,
        false,
    );
    assert_eq!(c.id, "abc");
    assert_eq!(c.name, "/trycli-studio-session-1");
    assert_eq!(c.state, "running");
    assert_eq!(c.image, "");
    assert!(c.is_managed);
    let c = container_info(None, vec![], None, Some("nginx".to_string()), true);
    assert_eq!(c.name, "");
    assert!(c.is_managed);
    let c = container_info(None, vec!["/postgres".to_string()], None, None, false);
    assert!(!c.is_managed);
}

#[test]
fn admin_messages() {
    assert_eq!(deleted_message("trycli-studio-projects:demo"), "Deleted project and image: trycli-studio-projects:demo");
    assert_eq!(killed_message(), "Container killed and session cleared");
}

#[test]
fn error_statuses() {
    let cases = vec![
        (AppError::Auth("a".to_string()), 401, "a"),
        (AppError::Forbidden("f".to_string()), 403, "f"),
        (AppError::NotFound("n".to_string()), 404, "n"),
        (AppError::BadRequest("b".to_string()), 400, "b"),
        (AppError::ValidationError("v".to_string()), 422, "v"),
        (AppError::RateLimit("r".to_string()), 429, "r"),
        (AppError::Conflict("c".to_string()), 409, "c"),
        (AppError::UnexpectedError("db down".to_string()), 500, "Internal Server Error"),
    ];
    for (e, status, msg) in cases {
        let (s, m) = e.status_and_message();
        assert_eq!(s, status);
        assert_eq!(m, msg);
        assert_eq!(e.is_unexpected(), status == 500);
    }
}

#[test]
fn ascii_lowercase_of_logins() {
    assert_eq!(trycli::text::to_lowercase("YashB404"), "yashb404");
}
