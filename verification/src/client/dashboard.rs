//! The dashboard: keyboard navigation in the search suggestions, what Enter
//! does, the page addresses it leads to, and the list after a deletion.
use vstd::prelude::*;
use crate::client::types::ProjectSummary;
use crate::text::str_eq;

verus! {

/// How many rows the suggestion list has: the search results, or the single
/// "create a new sandbox" row when nothing matched a non-empty query.
pub open spec fn suggestion_rows(results_len: nat, input_empty: bool) -> nat {
    if results_len == 0 && !input_empty {
        1
    } else {
        results_len
    }
}

/// Counts the rows of the suggestion list (see `suggestion_rows`).
pub fn suggestion_count(results_len: usize, input_empty: bool) -> (n: usize)
    ensures
        n == suggestion_rows(results_len as nat, input_empty),
{
    if results_len == 0 && !input_empty {
        1
    } else {
        results_len
    }
}

/// The row highlighted after an arrow key: one down or one up from `active`,
/// wrapping round the `count` rows (a Euclidean remainder, never negative).
pub open spec fn stepped_row(active: int, count: int, down: bool) -> int {
    (if down { active + 1 } else { active - 1 }) % count
}

/// The highlighted row after an arrow key; `None` when the list is empty and
/// the key does nothing.
pub fn next_active(active: i32, count: usize, down: bool) -> (r: Option<i32>)
    requires
        i32::MIN < active < i32::MAX,
        count <= i32::MAX,
    ensures
        count == 0 ==> r is None,
        count > 0 ==> r == Some(stepped_row(active as int, count as int, down) as i32),
        count > 0 ==> 0 <= stepped_row(active as int, count as int, down) < count,
{
    if count == 0 {
        return None;
    }
    let a: i64 = if down { active as i64 + 1 } else { active as i64 - 1 };
    let c: i64 = count as i64;
    let ghost ai: int = a as int;
    let ghost ci: int = c as int;
    let r: i64 = if a >= 0 {
        let q: u64 = (a as u64) % (c as u64);
        q as i64
    } else {
        let m: u64 = ((0 - a) as u64) % (c as u64);
        if m == 0 {
            0
        } else {
            c - (m as i64)
        }
    };
    proof {
        if ai >= 0 {
            assert(r == ai % ci);
        } else {
            let m = (-ai) % ci;
            assert(0 <= m < ci) by (nonlinear_arith)
                requires ci > 0, m == (-ai) % ci;
            assert((-ai) == ((-ai) / ci) * ci + m) by (nonlinear_arith)
                requires ci > 0, m == (-ai) % ci;
            if m == 0 {
                assert(ai == (-((-ai) / ci)) * ci) by (nonlinear_arith)
                    requires (-ai) == ((-ai) / ci) * ci;
                lemma_mod_of_multiple(-((-ai) / ci), ci);
                assert(r == ai % ci);
            } else {
                assert(ai == (-((-ai) / ci) - 1) * ci + (ci - m)) by (nonlinear_arith)
                    requires (-ai) == ((-ai) / ci) * ci + m;
                lemma_mod_unique(-((-ai) / ci) - 1, ci, ci - m, ai);
                assert(r == ai % ci);
            }
        }
        assert(0 <= ai % ci < ci) by (nonlinear_arith)
            requires ci > 0;
    }
    Some(r as i32)
}

proof fn lemma_mod_of_multiple(q: int, c: int)
    requires
        c > 0,
    ensures
        (q * c) % c == 0,
{
    vstd::arithmetic::div_mod::lemma_mod_multiples_basic(q, c);
}

proof fn lemma_mod_unique(q: int, c: int, r: int, a: int)
    requires
        c > 0,
        0 <= r < c,
        a == q * c + r,
    ensures
        a % c == r,
{
    vstd::arithmetic::div_mod::lemma_fundamental_div_mod_converse(a, c, q, r);
}

/// An arrow key down followed by an arrow key up comes back to the row it
/// started from, and the other way round, wrapping included.
pub proof fn law_arrow_keys_undo(active: int, count: int)
    requires
        0 <= active < count,
    ensures
        stepped_row(stepped_row(active, count, true), count, false) == active,
        stepped_row(stepped_row(active, count, false), count, true) == active,
{
    let down = stepped_row(active, count, true);
    let up = stepped_row(active, count, false);
    if active + 1 < count {
        lemma_mod_unique(0, count, active + 1, active + 1);
        lemma_mod_unique(0, count, active, active);
    } else {
        lemma_mod_unique(1, count, 0, active + 1);
        lemma_mod_unique(-1, count, count - 1, -1);
    }
    if active >= 1 {
        lemma_mod_unique(0, count, active - 1, active - 1);
        lemma_mod_unique(0, count, active, active);
    } else {
        lemma_mod_unique(-1, count, count - 1, -1);
        lemma_mod_unique(1, count, 0, count);
    }
    assert(down == (if active + 1 < count { active + 1 } else { 0 }));
    assert(up == (if active >= 1 { active - 1 } else { count - 1 }));
}

/// What Enter does in the search field.
#[derive(Debug)]
pub enum EnterAction {
    /// Start a new sandbox named after the query.
    CreateNew,
    /// Open the search result at this position.
    Open(usize),
    /// Nothing.
    Stay,
}

/// Enter on a non-empty list: a new sandbox when nothing matched a non-empty
/// query, else the highlighted result when one is highlighted.
pub open spec fn enter_outcome(results_len: nat, input_empty: bool, active: int) -> EnterAction {
    if suggestion_rows(results_len, input_empty) == 0 {
        EnterAction::Stay
    } else if results_len == 0 && !input_empty {
        EnterAction::CreateNew
    } else if 0 <= active < results_len {
        EnterAction::Open(active as usize)
    } else {
        EnterAction::Stay
    }
}

/// Decides what Enter does (see `enter_outcome`).
pub fn enter_action(results_len: usize, input_empty: bool, active: i32) -> (r: EnterAction)
    ensures
        r == enter_outcome(results_len as nat, input_empty, active as int),
{
    let count = suggestion_count(results_len, input_empty);
    if count == 0 {
        EnterAction::Stay
    } else if results_len == 0 && !input_empty {
        EnterAction::CreateNew
    } else if active >= 0 && (active as usize) < results_len {
        EnterAction::Open(active as usize)
    } else {
        EnterAction::Stay
    }
}

/// The page that starts a new sandbox, for a name already URI-encoded.
pub fn new_project_path(encoded_name: &str) -> (r: String)
    ensures
        r@ == "/new?name="@ + encoded_name@,
{
    let mut r = "/new?name=".to_owned();
    r.append(encoded_name);
    r
}

/// The page of a project of the signed-in user.
pub fn owned_project_path(login: &str, slug: &str) -> (r: String)
    ensures
        r@ == "/"@ + login@ + "/"@ + slug@,
{
    let mut r = "/".to_owned();
    r.append(login);
    r.append("/");
    r.append(slug);
    r
}

/// How the fetch of the user's projects ended.
#[derive(Debug)]
pub enum ListFetch {
    /// The request did not reach the API.
    NetworkError,
    /// The API answered with this non-success status.
    Refused(u16),
    /// The API answered with success but the body was not a project list.
    Unreadable,
    /// The projects the API listed.
    Listed(Vec<ProjectSummary>),
}

/// What the dashboard shows after fetching the project list: the projects,
/// or the error message for how the fetch failed.
pub fn project_list_state(f: ListFetch) -> (r: Result<Vec<ProjectSummary>, String>)
    ensures
        match f {
            ListFetch::Listed(ps) => r == Ok::<Vec<ProjectSummary>, String>(ps),
            ListFetch::Refused(_) => r matches Err(m) && m@ == "Failed to fetch deployments"@,
            ListFetch::Unreadable => r matches Err(m) && m@ == "Failed to parse project list"@,
            ListFetch::NetworkError => r matches Err(m) && m@ == "Network error connecting to API"@,
        },
{
    match f {
        ListFetch::Listed(ps) => Ok(ps),
        ListFetch::Refused(_) => Err("Failed to fetch deployments".to_owned()),
        ListFetch::Unreadable => Err("Failed to parse project list".to_owned()),
        ListFetch::NetworkError => Err("Network error connecting to API".to_owned()),
    }
}

/// `s` without the projects whose slug is `slug`, the others in order.
pub open spec fn without_slug(s: Seq<ProjectSummary>, slug: Seq<char>) -> Seq<ProjectSummary>
    decreases s.len(),
{
    if s.len() == 0 {
        Seq::empty()
    } else if s.last().slug@ != slug {
        without_slug(s.drop_last(), slug).push(s.last())
    } else {
        without_slug(s.drop_last(), slug)
    }
}

/// Drops the deleted project from the listed ones, keeping the order of the rest.
pub fn remove_project(list: &mut Vec<ProjectSummary>, slug: &str)
    ensures
        final(list)@ == without_slug(old(list)@, slug@),
{
    let ghost orig = list@;
    let mut rest: Vec<ProjectSummary> = Vec::new();
    std::mem::swap(list, &mut rest);
    let ghost mut k: int = 0;
    while rest.len() > 0
        invariant
            0 <= k <= orig.len(),
            rest@ == orig.skip(k),
            list@ == without_slug(orig.take(k), slug@),
        decreases rest.len(),
    {
        let p = rest.remove(0);
        assert(orig.take(k + 1).drop_last() =~= orig.take(k));
        assert(orig.take(k + 1).last() == p);
        if !str_eq(p.slug.as_str(), slug) {
            list.push(p);
        }
        proof {
            k = k + 1;
        }
        assert(rest@ =~= orig.skip(k));
    }
    assert(orig.take(k) =~= orig);
}

} // verus!
