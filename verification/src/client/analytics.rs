//! Durations as the analytics page writes them.
use vstd::prelude::*;
use crate::text::{decimal, decimal_string};

verus! {

/// A duration in seconds as text: `Ns` under a minute, `Mm Ss` under an
/// hour, `Hh Mm` from an hour on.
pub open spec fn uptime_text(seconds: u64) -> Seq<char> {
    if seconds < 60 {
        decimal(seconds as nat) + "s"@
    } else if seconds < 3600 {
        decimal((seconds / 60) as nat) + "m "@ + decimal((seconds % 60) as nat) + "s"@
    } else {
        decimal((seconds / 3600) as nat) + "h "@ + decimal(((seconds % 3600) / 60) as nat) + "m"@
    }
}

/// Writes a duration given in seconds (see `uptime_text`).
pub fn format_uptime(seconds: u64) -> (r: String)
    ensures
        r@ == uptime_text(seconds),
{
    if seconds < 60 {
        let mut r = decimal_string(seconds);
        r.append("s");
        r
    } else if seconds < 3600 {
        let mut r = decimal_string(seconds / 60);
        r.append("m ");
        let s = decimal_string(seconds % 60);
        r.append(s.as_str());
        r.append("s");
        r
    } else {
        let mut r = decimal_string(seconds / 3600);
        r.append("h ");
        let m = decimal_string((seconds % 3600) / 60);
        r.append(m.as_str());
        r.append("m");
        r
    }
}

} // verus!
