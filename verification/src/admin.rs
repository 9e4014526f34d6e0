//! The administration endpoints: who is an administrator, and the summary of
//! containers shown to them.
use vstd::prelude::*;
use crate::rejection::{Rejection, reject, opt_text};
use crate::models::User;
use crate::text::{lowercase, to_lowercase, str_eq, contains, contains_seq};

verus! {

/// Whether a lower-cased GitHub login is one of the administrators.
pub open spec fn is_admin_login(login: Seq<char>) -> bool {
    login == "karthikeyjoshi"@ || login == "yashb404"@ || login == "rakshat28"@
}

/// The answer to a request for the administration pages: 401 without a
/// signed-in user, 403 for a user whose lower-cased login is not an administrator's.
pub open spec fn admin_verdict(login: Option<Seq<char>>) -> Result<(), (u16, Seq<char>)> {
    match login {
        None => Err((401, "Please login first"@)),
        Some(l) => if is_admin_login(lowercase(l)) {
            Ok(())
        } else {
            Err((403, "Admin access only"@))
        },
    }
}

/// Only the listed administrators pass, whatever the case of their login;
/// without a signed-in user the answer is 401, for anybody else 403.
pub proof fn law_admin_only(login: Option<Seq<char>>)
    ensures
        admin_verdict(login) is Ok <==> (login is Some && is_admin_login(lowercase(login.unwrap()))),
        login is None ==> admin_verdict(login) == Err::<(), (u16, Seq<char>)>((401u16, "Please login first"@)),
        login is Some && !is_admin_login(lowercase(login.unwrap())) ==> admin_verdict(login) == Err::<(), (u16, Seq<char>)>(
            (403u16, "Admin access only"@),
        ),
{
}

/// Checks that the signed-in user is an administrator (see `admin_verdict`).
pub fn check_admin(user: Option<&User>) -> (r: Result<(), Rejection>)
    ensures
        crate::rejection::outcome(r) == admin_verdict(
            match user {
                Some(u) => Some(u.login@),
                None => None,
            },
        ),
{
    match user {
        None => Err(reject(401, "Please login first")),
        Some(u) => {
            let lower = to_lowercase(u.login.as_str());
            let l = lower.as_str();
            if str_eq(l, "karthikeyjoshi") || str_eq(l, "yashb404") || str_eq(l, "rakshat28") {
                Ok(())
            } else {
                Err(reject(403, "Admin access only"))
            }
        },
    }
}

/// A container as listed on the administration page.
#[derive(Debug)]
pub struct ContainerInfo {
    pub id: String,
    pub name: String,
    pub state: String,
    pub image: String,
    pub is_managed: bool,
}

/// The overview shown on the administration page.
#[derive(Debug)]
pub struct SystemStats {
    pub total_projects: i64,
    pub total_views: i64,
    pub active_containers: usize,
    pub container_list: Vec<ContainerInfo>,
}

/// Whether a container belongs to this service: its name mentions `trycli`
/// or it carries the `managed_by` label.
pub open spec fn managed(name: Seq<char>, has_managed_label: bool) -> bool {
    contains_seq(name, "trycli"@) || has_managed_label
}

/// A copy of a string, or the empty string.
fn text_or_empty(o: Option<String>) -> (r: String)
    ensures
        r@ == match opt_text(o) {
            Some(t) => t,
            None => Seq::<char>::empty(),
        },
{
    match o {
        Some(s) => s,
        None => String::new(),
    }
}

/// The listing of one container: missing fields become empty, the name is
/// the first name Docker reports, and `is_managed` is set as `managed` says.
pub fn container_info(
    id: Option<String>,
    names: Vec<String>,
    state: Option<String>,
    image: Option<String>,
    has_managed_label: bool,
) -> (c: ContainerInfo)
    ensures
        c.id@ == opt_text(id).unwrap_or(Seq::empty()),
        c.name@ == (if names@.len() > 0 { names@[0]@ } else { Seq::empty() }),
        c.state@ == opt_text(state).unwrap_or(Seq::empty()),
        c.image@ == opt_text(image).unwrap_or(Seq::empty()),
        c.is_managed == managed(c.name@, has_managed_label),
{
    let name = if names.len() > 0 {
        names[0].clone()
    } else {
        String::new()
    };
    let is_managed = contains(name.as_str(), "trycli") || has_managed_label;
    ContainerInfo {
        id: text_or_empty(id),
        name,
        state: text_or_empty(state),
        image: text_or_empty(image),
        is_managed,
    }
}

/// The answer to an administrator's deletion of a project.
pub fn deleted_message(image_tag: &str) -> (r: String)
    ensures
        r@ == "Deleted project and image: "@ + image_tag@,
{
    let mut r = "Deleted project and image: ".to_owned();
    r.append(image_tag);
    r
}

/// The answer to an administrator's removal of a container.
pub fn killed_message() -> (r: String)
    ensures
        r@ == "Container killed and session cleared"@,
{
    "Container killed and session cleared".to_owned()
}

} // verus!
