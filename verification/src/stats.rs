//! Human-readable rendering of estimated plot times.
use vstd::prelude::*;
use crate::decimal::{dec_digits, push_decimal};

verus! {

/// The estimate shown for a plot of `secs` whole seconds: `~45s` under a
/// minute, `~3m 5s` under an hour, otherwise `~1h 2m` (seconds dropped).
pub open spec fn time_estimate_text(secs: nat) -> Seq<char> {
    if secs < 60 {
        "~"@ + dec_digits(secs) + "s"@
    } else if secs < 3600 {
        "~"@ + dec_digits(secs / 60) + "m "@ + dec_digits(secs % 60) + "s"@
    } else {
        "~"@ + dec_digits(secs / 3600) + "h "@ + dec_digits((secs % 3600) / 60) + "m"@
    }
}

/// Formats an estimated plot time given in whole seconds.
pub fn format_time(secs: u64) -> (r: String)
    ensures
        r@ == time_estimate_text(secs as nat),
{
    let mut s = String::new();
    proof {
        reveal_strlit("~");
        reveal_strlit("s");
        reveal_strlit("m ");
        reveal_strlit("h ");
        reveal_strlit("m");
    }
    s.append("~");
    if secs < 60 {
        push_decimal(&mut s, secs);
        s.append("s");
    } else if secs < 3600 {
        push_decimal(&mut s, secs / 60);
        s.append("m ");
        push_decimal(&mut s, secs % 60);
        s.append("s");
    } else {
        push_decimal(&mut s, secs / 3600);
        s.append("h ");
        push_decimal(&mut s, (secs % 3600) / 60);
        s.append("m");
    }
    s
}

} // verus!
