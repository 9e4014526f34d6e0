//! Where the navigation bar's logo leads.
use vstd::prelude::*;
use crate::text::str_eq;

verus! {

/// The target of the logo link: the landing page for visitors; for a
/// signed-in user the landing page when already there, the dashboard otherwise.
pub open spec fn logo_target(is_logged_in: Option<bool>, current_path: Seq<char>) -> Seq<char> {
    if is_logged_in == Some(true) && current_path != "/"@ {
        "/dashboard"@
    } else {
        "/"@
    }
}

/// Chooses the target of the logo link (see `logo_target`).
pub fn logo_href(is_logged_in: Option<bool>, current_path: &str) -> (r: &'static str)
    ensures
        r@ == logo_target(is_logged_in, current_path@),
{
    let logged_in = match is_logged_in {
        Some(b) => b,
        None => false,
    };
    if logged_in {
        if str_eq(current_path, "/") {
            "/"
        } else {
            "/dashboard"
        }
    } else {
        "/"
    }
}

} // verus!
