//! The answer a handler gives when it refuses a request: an HTTP status and a message.
use vstd::prelude::*;

verus! {

/// A refused request: the HTTP status code and the message sent with it.
#[derive(Debug)]
pub struct Rejection {
    pub status: u16,
    pub message: String,
}

impl View for Rejection {
    type V = (u16, Seq<char>);

    open spec fn view(&self) -> (u16, Seq<char>) {
        (self.status, self.message@)
    }
}

/// The view of a result whose error is a `Rejection`.
pub open spec fn outcome<T>(r: Result<T, Rejection>) -> Result<T, (u16, Seq<char>)> {
    match r {
        Ok(v) => Ok(v),
        Err(e) => Err(e@),
    }
}

/// The view of an optional string.
pub open spec fn opt_text(o: Option<String>) -> Option<Seq<char>> {
    match o {
        Some(s) => Some(s@),
        None => None,
    }
}

/// Builds a rejection from a status and a message.
pub fn reject(status: u16, message: &str) -> (r: Rejection)
    ensures
        r@ == (status, message@),
{
    Rejection { status, message: message.to_owned() }
}

} // verus!
