//! Addresses and texts of the browser terminal.
use vstd::prelude::*;

verus! {

/// The WebSocket address of a session.
pub fn session_socket_url(ws_base: &str, session_id: &str) -> (r: String)
    ensures
        r@ == ws_base@ + "/ws/"@ + session_id@,
{
    let mut r = ws_base.to_owned();
    r.append("/ws/");
    r.append(session_id);
    r
}

/// The line written while the terminal connects.
pub fn connecting_banner(session_id: &str) -> (r: String)
    ensures
        r@ == "Connecting to session "@ + session_id@ + "...\r\n"@,
{
    let mut r = "Connecting to session ".to_owned();
    r.append(session_id);
    r.append("...\r\n");
    r
}

} // verus!
