//! The confirmation dialog that asks for a project's name before deleting it.
use vstd::prelude::*;
use crate::text::{trimmed, trim, str_eq};

verus! {

/// Whether the typed name confirms the deletion: equal to the expected name
/// once white space around both is ignored.
pub fn confirm_matches(input: &str, expected: &str) -> (b: bool)
    ensures
        b == (trimmed(input@) == trimmed(expected@)),
{
    str_eq(trim(input), trim(expected))
}

/// A press of the confirm button: `Ok` when the typed name matches (the
/// deletion goes ahead and the field is cleared), otherwise the message the
/// dialog shows and nothing else happens.
pub fn confirm_press(input: &str, expected: &str) -> (r: Result<(), String>)
    ensures
        r is Ok <==> trimmed(input@) == trimmed(expected@),
        r matches Err(m) ==> m@ == "Name does not match."@,
{
    if confirm_matches(input, expected) {
        Ok(())
    } else {
        Err("Name does not match.".to_owned())
    }
}

/// The text of the deletion dialog.
pub fn delete_warning(slug: &str) -> (r: String)
    ensures
        r@ == "This will permanently delete the snapshot '"@ + slug@ + "' and cannot be undone."@,
{
    let mut r = "This will permanently delete the snapshot '".to_owned();
    r.append(slug);
    r.append("' and cannot be undone.");
    r
}

} // verus!
