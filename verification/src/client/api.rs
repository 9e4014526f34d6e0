use vstd::prelude::*;

verus! {

/// The API address used when none was configured at build time.
pub open spec fn default_api_base() -> Seq<char> {
    "http://localhost:3000"@
}

/// The WebSocket address used when none was configured at build time.
pub open spec fn default_ws_base() -> Seq<char> {
    "ws://localhost:3000"@
}

/// Base URL of the HTTP API: the value configured at build time, or the local default.
pub fn api_base(configured: Option<&'static str>) -> (base: &'static str)
    ensures
        base@ == match configured {
            Some(c) => c@,
            None => default_api_base(),
        },
{
    match configured {
        Some(c) => c,
        None => "http://localhost:3000",
    }
}

/// Base URL of the WebSocket endpoint: the value configured at build time, or the local default.
pub fn ws_base(configured: Option<&'static str>) -> (base: &'static str)
    ensures
        base@ == match configured {
            Some(c) => c@,
            None => default_ws_base(),
        },
{
    match configured {
        Some(c) => c,
        None => "ws://localhost:3000",
    }
}

} // verus!
