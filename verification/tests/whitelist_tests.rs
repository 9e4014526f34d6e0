use trycli::whitelist::{
    rate_limit_verdict, required_location, stored_location, project_found, add_decision, remove_outcome,
    AddOutcome, added_status, MAX_WHITELIST_ENTRIES, WHITELIST_RATE_LIMIT_PER_MINUTE,
};
use trycli::models::WhitelistRequest;

#[test]
fn rate_limit_answers_429() {
    assert_eq!(WHITELIST_RATE_LIMIT_PER_MINUTE, 20);
    assert!(rate_limit_verdict(true).is_ok());
    let e = rate_limit_verdict(false).unwrap_err();
    assert_eq!((e.status, e.message.as_str()), (429, "Rate limit exceeded. Please try again later."));
}

#[test]
fn location_is_required() {
    let body = WhitelistRequest { allowed_url: "  https://blog.example/a  ".to_string() };
    assert_eq!(required_location(&body.allowed_url).unwrap(), "https://blog.example/a");
    let e = required_location(" \t ").unwrap_err();
    assert_eq!((e.status, e.message.as_str()), (400, "allowed_url is required"));
}

#[test]
fn location_is_stored_normalized() {
    assert_eq!(stored_location("https://blog.example/a/?x=1#f").unwrap(), "https://blog.example/a");
    let e = stored_location("javascript:alert(1)").unwrap_err();
    assert_eq!(e.status, 400);
    assert_eq!(e.message, "Invalid URL format. URL must use http or https scheme and include a valid host.");
}

#[test]
fn project_must_exist() {
    assert_eq!(project_found(Some(12)).unwrap(), 12);
    let e = project_found(None).unwrap_err();
    assert_eq!((e.status, e.message.as_str()), (404, "Project not found"));
}

#[test]
fn additions_are_capped_and_idempotent() {
    assert_eq!(MAX_WHITELIST_ENTRIES, 100);
    assert!(matches!(add_decision(true, 100), Ok(AddOutcome::AlreadyListed)));
    assert!(matches!(add_decision(false, 99), Ok(AddOutcome::Insert)));
    assert_eq!(added_status(&AddOutcome::AlreadyListed), 200);
    assert_eq!(added_status(&AddOutcome::Insert), 201);
    let e = add_decision(false, 100).unwrap_err();
    assert_eq!((e.status, e.message.as_str()), (403, "Maximum whitelist entries (100) reached for this project"));
}

#[test]
fn whitelist_law_on_values() {
    let mut list: Vec<String> = Vec::new();
    for i in 0..100 {
        let loc = stored_location(&format!("https://site{}.example/", i)).unwrap();
        let listed = list.contains(&loc);
        if let Ok(AddOutcome::Insert) = add_decision(listed, list.len() as i64) {
            list.push(loc);
        }
    }
    assert_eq!(list.len(), 100);
    let again = stored_location("https://site3.example").unwrap();
    assert!(matches!(add_decision(list.contains(&again), list.len() as i64), Ok(AddOutcome::AlreadyListed)));
    let extra = stored_location("https://new.example").unwrap();
    assert!(add_decision(list.contains(&extra), list.len() as i64).is_err());
}

#[test]
fn removal_status() {
    assert_eq!(remove_outcome(1).unwrap(), 204);
    let e = remove_outcome(0).unwrap_err();
    assert_eq!((e.status, e.message.as_str()), (404, "Whitelist entry not found"));
}

#[test]
fn remove_undoes_add_on_values() {
    let mut list: Vec<String> = vec!["https://a.example/".to_string()];
    let loc = stored_location(" https://b.example/post/ ".trim()).unwrap();
    assert!(matches!(add_decision(list.contains(&loc), list.len() as i64), Ok(AddOutcome::Insert)));
    list.push(loc.clone());
    let again = stored_location("https://b.example/post?x=1").unwrap();
    let before = list.len();
    list.retain(|l| l != &again);
    assert_eq!(remove_outcome((before - list.len()) as u64).unwrap(), 204);
    assert_eq!(list, vec!["https://a.example/".to_string()]);
    let before = list.len();
    list.retain(|l| l != &again);
    assert!(remove_outcome((before - list.len()) as u64).is_err());
}

#[test]
fn second_addition_changes_nothing_when_full() {
    assert!(add_decision(false, 100).is_err());
    assert!(add_decision(false, 100).is_err());
}
