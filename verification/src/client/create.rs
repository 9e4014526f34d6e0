//! The page that creates a project: the slug field and the publish outcome.
use vstd::prelude::*;
use crate::text::{lowercase, to_lowercase, chars_of, decimal, decimal_string};

verus! {

/// Whether a character may appear in a slug: an ASCII letter or digit, or a hyphen.
pub open spec fn slug_char(c: char) -> bool {
    ('a' <= c <= 'z') || ('A' <= c <= 'Z') || ('0' <= c <= '9') || c == '-'
}

/// What the slug field keeps of a typed value: the lower-cased value when it
/// is empty or made of slug characters only; nothing otherwise (the field
/// then shows an error).
pub open spec fn slug_input(typed: Seq<char>) -> Option<Seq<char>> {
    let v = lowercase(typed);
    if forall|i: int| 0 <= i < v.len() ==> slug_char(#[trigger] v[i]) {
        Some(v)
    } else {
        None
    }
}

/// Reads the slug field (see `slug_input`).
pub fn accept_slug_input(typed: &str) -> (r: Option<String>)
    ensures
        crate::rejection::opt_text(r) == slug_input(typed@),
{
    let v = to_lowercase(typed);
    let cs = chars_of(v.as_str());
    let mut i: usize = 0;
    while i < cs.len()
        invariant
            cs@ == v@,
            v@ == lowercase(typed@),
            i <= cs@.len(),
            forall|j: int| 0 <= j < i ==> slug_char(#[trigger] cs@[j]),
        decreases cs.len() - i,
    {
        let c = cs[i];
        if !(('a' <= c && c <= 'z') || ('A' <= c && c <= 'Z') || ('0' <= c && c <= '9') || c == '-') {
            assert(!slug_char(v@[i as int]));
            return None;
        }
        i = i + 1;
    }
    Some(v)
}

/// The message shown about the slug field when a value is refused.
pub fn slug_error() -> (r: String)
    ensures
        r@ == "Only letters, numbers, and hyphens allowed"@,
{
    "Only letters, numbers, and hyphens allowed".to_owned()
}

/// Whether the Publish button may be pressed: a terminal session is open, the
/// slug field shows no error, and no publish is already under way (so a
/// click during a publish sends nothing).
pub fn publish_enabled(container_id: &str, has_slug_error: bool, publishing: bool) -> (b: bool)
    ensures
        b == (container_id@.len() > 0 && !has_slug_error && !publishing),
{
    !container_id.is_empty() && !has_slug_error && !publishing
}

/// The dialog body after a refused publish: the HTTP status and the server's text.
pub fn publish_failure_body(status: u16, body: &str) -> (r: String)
    ensures
        r@ == decimal(status as nat) + ": "@ + body@,
{
    let mut r = decimal_string(status as u64);
    r.append(": ");
    r.append(body);
    r
}

} // verus!
