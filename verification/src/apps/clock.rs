//! The clock app: shows the real-time clock's date and time.
use vstd::prelude::*;
use crate::drivers::rtc::RtcTime;
use crate::text::{padded, padded_string};

verus! {

/// The clock line for `t`: carriage return, `YYYY-MM-DD  hh:mm:ss`, and
/// three spaces that blank what a longer earlier line left.
pub open spec fn clock_line(t: RtcTime) -> Seq<char> {
    "\r"@ + padded(t.year as nat, 4) + "-"@ + padded(t.month as nat, 2) + "-"@ + padded(
        t.day as nat,
        2,
    ) + "  "@ + padded(t.hours as nat, 2) + ":"@ + padded(t.minutes as nat, 2) + ":"@ + padded(
        t.seconds as nat,
        2,
    ) + "   "@
}

/// Formats the time as the clock shows it.
pub fn format_time(t: &RtcTime) -> (r: String)
    ensures
        r@ == clock_line(*t),
{
    let mut s = "\r".to_owned();
    s.append(padded_string(t.year as u64, 4).as_str());
    s.append("-");
    s.append(padded_string(t.month as u64, 2).as_str());
    s.append("-");
    s.append(padded_string(t.day as u64, 2).as_str());
    s.append("  ");
    s.append(padded_string(t.hours as u64, 2).as_str());
    s.append(":");
    s.append(padded_string(t.minutes as u64, 2).as_str());
    s.append(":");
    s.append(padded_string(t.seconds as u64, 2).as_str());
    s.append("   ");
    s
}

} // verus!
