//! The list of pages allowed to embed a private project (its guest list):
//! request checks, the cap on its length, and the answers to edits.
use vstd::prelude::*;
use crate::rejection::{Rejection, reject};
use crate::text::{trimmed, trim};
use crate::urls::{normalized_text, normalize_url};

verus! {

/// Most entries a project's list of allowed embed locations may hold.
pub const MAX_WHITELIST_ENTRIES: i64 = 100;

/// Requests per minute that one user may make against allowed-location lists.
pub const WHITELIST_RATE_LIMIT_PER_MINUTE: u32 = 20;

/// Refuses a request that the user's rate limiter did not let through (429).
pub fn rate_limit_verdict(allowed: bool) -> (r: Result<(), Rejection>)
    ensures
        r is Ok <==> allowed,
        r matches Err(e) ==> e@ == (429u16, "Rate limit exceeded. Please try again later."@),
{
    if allowed {
        Ok(())
    } else {
        Err(reject(429, "Rate limit exceeded. Please try again later."))
    }
}

/// The location from a request body, trimmed; 400 when nothing is left.
pub fn required_location(allowed_url: &str) -> (r: Result<&str, Rejection>)
    ensures
        match r {
            Ok(t) => t@ == trimmed(allowed_url@) && t@.len() > 0,
            Err(e) => trimmed(allowed_url@).len() == 0 && e@ == (400u16, "allowed_url is required"@),
        },
{
    let t = trim(allowed_url);
    if t.is_empty() {
        Err(reject(400, "allowed_url is required"))
    } else {
        Ok(t)
    }
}

/// The message refusing a location that has no normal form.
pub open spec fn invalid_location_message() -> Seq<char> {
    "Invalid URL format. URL must use http or https scheme and include a valid host."@
}

/// The normal form under which a location is stored and compared; 400 when it has none.
pub fn stored_location(location: &str) -> (r: Result<String, Rejection>)
    ensures
        match r {
            Ok(n) => normalized_text(location@) == Some(n@),
            Err(e) => normalized_text(location@) is None && e@ == (400u16, invalid_location_message()),
        },
{
    match normalize_url(location) {
        Some(n) => Ok(n),
        None => Err(reject(400, "Invalid URL format. URL must use http or https scheme and include a valid host.")),
    }
}

/// The project id found for the caller's slug, or 404.
pub fn project_found(id: Option<i64>) -> (r: Result<i64, Rejection>)
    ensures
        match r {
            Ok(v) => id == Some(v),
            Err(e) => id is None && e@ == (404u16, "Project not found"@),
        },
{
    match id {
        Some(v) => Ok(v),
        None => Err(reject(404, "Project not found")),
    }
}

/// What adding a location does.
#[derive(Debug, PartialEq, Eq, Structural)]
pub enum AddOutcome {
    /// The location is already listed: nothing changes and 200 is answered.
    AlreadyListed,
    /// The location is inserted and 201 is answered.
    Insert,
}

/// The status answered for an accepted addition.
pub open spec fn add_status(o: AddOutcome) -> u16 {
    match o {
        AddOutcome::AlreadyListed => 200,
        AddOutcome::Insert => 201,
    }
}

/// The status answered for an accepted addition (see `add_status`).
pub fn added_status(o: &AddOutcome) -> (s: u16)
    ensures
        s == add_status(*o),
{
    match o {
        AddOutcome::AlreadyListed => 200,
        AddOutcome::Insert => 201,
    }
}

/// The message refusing an addition to a full list.
pub open spec fn list_full_message() -> Seq<char> {
    "Maximum whitelist entries (100) reached for this project"@
}

/// The answer to adding a location, given whether it is already listed and
/// how many entries the list has: re-adding is accepted without change; a
/// list that already holds the maximum refuses new entries (403).
pub open spec fn add_verdict(listed: bool, count: int) -> Result<AddOutcome, (u16, Seq<char>)> {
    if listed {
        Ok(AddOutcome::AlreadyListed)
    } else if count >= MAX_WHITELIST_ENTRIES {
        Err((403, list_full_message()))
    } else {
        Ok(AddOutcome::Insert)
    }
}

/// Decides an addition (see `add_verdict`).
pub fn add_decision(listed: bool, count: i64) -> (r: Result<AddOutcome, Rejection>)
    ensures
        match r {
            Ok(o) => add_verdict(listed, count as int) == Ok::<AddOutcome, (u16, Seq<char>)>(o),
            Err(e) => add_verdict(listed, count as int) == Err::<AddOutcome, (u16, Seq<char>)>(e@),
        },
{
    if listed {
        Ok(AddOutcome::AlreadyListed)
    } else if count >= MAX_WHITELIST_ENTRIES {
        Err(reject(403, "Maximum whitelist entries (100) reached for this project"))
    } else {
        Ok(AddOutcome::Insert)
    }
}

/// The status of a removal: 204 when a row was deleted, 404 otherwise.
pub fn remove_outcome(rows_deleted: u64) -> (r: Result<u16, Rejection>)
    ensures
        match r {
            Ok(s) => rows_deleted > 0 && s == 204,
            Err(e) => rows_deleted == 0 && e@ == (404u16, "Whitelist entry not found"@),
        },
{
    if rows_deleted == 0 {
        Err(reject(404, "Whitelist entry not found"))
    } else {
        Ok(204)
    }
}

/// A project's list after an addition of `location` is decided.
pub open spec fn list_after_add(list: Set<Seq<char>>, location: Seq<char>) -> Set<Seq<char>> {
    match add_verdict(list.contains(location), list.len() as int) {
        Ok(AddOutcome::Insert) => list.insert(location),
        _ => list,
    }
}

/// The answer to removing a location: 204 when it is listed (the deletion
/// touches its row), else 404, as `remove_outcome` gives for the rows deleted.
pub open spec fn remove_verdict(list: Set<Seq<char>>, location: Seq<char>) -> Result<u16, (u16, Seq<char>)> {
    if list.contains(location) {
        Ok(204)
    } else {
        Err((404, "Whitelist entry not found"@))
    }
}

/// A project's list after a removal of `location`.
pub open spec fn list_after_remove(list: Set<Seq<char>>, location: Seq<char>) -> Set<Seq<char>> {
    list.remove(location)
}

/// Removing a location undoes adding it: after a new location is added
/// (201), removing it answers 204 and gives back the list as it was; a second
/// removal answers 404 and changes nothing.
pub proof fn law_remove_undoes_add(list: Set<Seq<char>>, location: Seq<char>)
    requires
        !list.contains(location),
        list.len() < MAX_WHITELIST_ENTRIES,
    ensures
        add_verdict(list.contains(location), list.len() as int) == Ok::<AddOutcome, (u16, Seq<char>)>(AddOutcome::Insert),
        remove_verdict(list_after_add(list, location), location) == Ok::<u16, (u16, Seq<char>)>(204),
        list_after_remove(list_after_add(list, location), location) == list,
        remove_verdict(list_after_remove(list_after_add(list, location), location), location) == Err::<u16, (u16, Seq<char>)>((404u16, "Whitelist entry not found"@)),
        list_after_remove(list_after_remove(list_after_add(list, location), location), location) == list,
{
    assert(list.insert(location).remove(location) =~= list);
    assert(list.remove(location) =~= list);
}

/// Adding a location a second time changes nothing, whatever the first
/// addition did: the location is listed already (200), or the list was full
/// and is still full (403).
pub proof fn law_add_idempotent(list: Set<Seq<char>>, location: Seq<char>)
    ensures
        list_after_add(list_after_add(list, location), location) == list_after_add(list, location),
{
}

/// The list of allowed embed locations never grows past its maximum, and
/// adding a location twice changes nothing the second time.
pub proof fn law_whitelist_bounded(list: Set<Seq<char>>, location: Seq<char>)
    requires
        list.finite(),
        list.len() <= MAX_WHITELIST_ENTRIES,
    ensures
        list_after_add(list, location).finite(),
        list_after_add(list, location).len() <= MAX_WHITELIST_ENTRIES,
        list_after_add(list, location).contains(location) || add_verdict(
            list.contains(location),
            list.len() as int,
        ) is Err,
        list_after_add(list_after_add(list, location), location) == list_after_add(list, location),
{
    let after = list_after_add(list, location);
    if !list.contains(location) && list.len() < MAX_WHITELIST_ENTRIES {
        assert(after.len() == list.len() + 1);
        assert(after.contains(location));
    }
}

} // verus!
