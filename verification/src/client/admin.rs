//! The administration page: the addresses it calls, how it reads the
//! overview's answer, and the texts of its confirmations.
use vstd::prelude::*;

verus! {

/// How the administration page reads the status of the overview request.
#[derive(Debug, PartialEq, Eq, Structural)]
pub enum StatsAnswer {
    /// 403: the user is no administrator; the page moves to `/analytics`.
    LeaveForAnalytics,
    /// A success: the page is shown and the overview read.
    Authorized,
    /// Anything else: nothing changes.
    Ignored,
}

/// The reading of the overview's status (see `StatsAnswer`).
pub open spec fn stats_answer_of(status: u16) -> StatsAnswer {
    if status == 403 {
        StatsAnswer::LeaveForAnalytics
    } else if 200 <= status <= 299 {
        StatsAnswer::Authorized
    } else {
        StatsAnswer::Ignored
    }
}

/// Reads the status of the overview request (see `stats_answer_of`).
pub fn stats_answer(status: u16) -> (r: StatsAnswer)
    ensures
        r == stats_answer_of(status),
{
    if status == 403 {
        StatsAnswer::LeaveForAnalytics
    } else if 200 <= status && status <= 299 {
        StatsAnswer::Authorized
    } else {
        StatsAnswer::Ignored
    }
}

/// Where a non-administrator is sent.
pub fn analytics_path() -> (r: &'static str)
    ensures
        r@ == "/analytics"@,
{
    "/analytics"
}

/// The address of the system overview.
pub fn stats_endpoint(api: &str) -> (r: String)
    ensures
        r@ == api@ + "/api/admin/stats"@,
{
    let mut r = api.to_owned();
    r.append("/api/admin/stats");
    r
}

/// The address of the list of all projects.
pub fn all_projects_endpoint(api: &str) -> (r: String)
    ensures
        r@ == api@ + "/api/admin/projects"@,
{
    let mut r = api.to_owned();
    r.append("/api/admin/projects");
    r
}

/// The address that removes container `id`.
pub fn kill_container_endpoint(api: &str, id: &str) -> (r: String)
    ensures
        r@ == api@ + "/api/admin/container/"@ + id@,
{
    let mut r = api.to_owned();
    r.append("/api/admin/container/");
    r.append(id);
    r
}

/// The address that deletes project `slug`.
pub fn delete_project_endpoint(api: &str, slug: &str) -> (r: String)
    ensures
        r@ == api@ + "/api/admin/project/"@ + slug@,
{
    let mut r = api.to_owned();
    r.append("/api/admin/project/");
    r.append(slug);
    r
}

/// The question asked before removing container `id`.
pub fn kill_container_confirmation(id: &str) -> (r: String)
    ensures
        r@ == "Kill container "@ + id@ + "?"@,
{
    let mut r = "Kill container ".to_owned();
    r.append(id);
    r.append("?");
    r
}

/// The question asked before deleting project `slug`.
pub fn delete_project_confirmation(slug: &str) -> (r: String)
    ensures
        r@ == "DELETE project '"@ + slug@ + "'?\nThis deletes the DB entry AND Docker image."@,
{
    let mut r = "DELETE project '".to_owned();
    r.append(slug);
    r.append("'?\nThis deletes the DB entry AND Docker image.");
    r
}

} // verus!
