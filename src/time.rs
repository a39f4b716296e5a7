//! Points in time as whole seconds since the Unix epoch, and the elapsed
//! time shown in reports.

use vstd::prelude::*;
use crate::text::decimal;

verus! {

/// A point in time, in whole seconds since the Unix epoch.
#[derive(Clone, Copy, Debug, PartialEq, Eq, Structural)]
pub struct Timestamp {
    pub seconds: i64,
}

/// Time elapsed since a sensor was last heard from, in whole seconds.
#[derive(Clone, Copy, Debug, PartialEq, Eq, Structural, PartialOrd, Ord)]
pub struct LastSeenDuration {
    pub seconds: usize,
}

/// Seconds from `seen` to `now`: zero when `seen` is later, and at most
/// what a `usize` holds.
pub open spec fn elapsed_seconds(seen: int, now: int) -> int {
    if now - seen < 0 {
        0
    } else if now - seen > usize::MAX {
        usize::MAX as int
    } else {
        now - seen
    }
}

/// One unit of a compound duration: the count and its letter, or nothing
/// for a zero count.
pub open spec fn dhms_part(n: nat, unit: char) -> Seq<char> {
    if n == 0 {
        Seq::empty()
    } else {
        decimal(n).push(unit)
    }
}

/// A number of seconds as days, hours, minutes and seconds, largest unit
/// first, zero units left out; `0s` for zero.
pub open spec fn dhms_text(s: nat) -> Seq<char> {
    if s == 0 {
        seq!['0', 's']
    } else {
        dhms_part(s / 86400, 'd') + dhms_part((s % 86400) / 3600, 'h') + dhms_part((s % 3600) / 60, 'm')
            + dhms_part(s % 60, 's')
    }
}

/// Relies on `compound_duration::format_dhms`: days, hours, minutes and
/// seconds, largest first, each written as its decimal count and a letter,
/// zero units left out, and `0s` for zero.
#[verifier::external_body]
fn format_dhms(seconds: usize) -> (r: String)
    ensures
        r@ == dhms_text(seconds as nat),
{
    compound_duration::format_dhms(seconds)
}

impl LastSeenDuration {
    /// Time from `seen_timestamp` to `now`, never negative.
    pub fn new(seen_timestamp: &Timestamp, now: &Timestamp) -> (r: LastSeenDuration)
        ensures
            r.seconds == elapsed_seconds(seen_timestamp.seconds as int, now.seconds as int),
    {
        let diff: i128 = now.seconds as i128 - seen_timestamp.seconds as i128;
        if diff < 0 {
            LastSeenDuration { seconds: 0 }
        } else if diff > usize::MAX as i128 {
            LastSeenDuration { seconds: usize::MAX }
        } else {
            LastSeenDuration { seconds: diff as usize }
        }
    }

    /// The duration as days, hours, minutes and seconds (`1d2h3s`).
    pub fn to_string(&self) -> (r: String)
        ensures
            r@ == dhms_text(self.seconds as nat),
    {
        format_dhms(self.seconds)
    }
}

} // verus!
