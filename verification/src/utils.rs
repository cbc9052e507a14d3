//! Ages as people read them.
use crate::text::{decimal, decimal_string};
use vstd::prelude::*;

verus! {

broadcast use vstd::string::group_string_axioms;

/// `"<n>s ago"` below a minute, then minutes, hours, and days.
pub open spec fn spec_format_age(secs: u64) -> Seq<char> {
    if secs < 60 {
        decimal(secs as nat) + "s ago"@
    } else if secs < 3600 {
        decimal((secs / 60) as nat) + "m ago"@
    } else if secs < 86400 {
        decimal((secs / 3600) as nat) + "h ago"@
    } else {
        decimal((secs / 86400) as nat) + "d ago"@
    }
}

/// A duration in seconds as a short human-readable age.
pub fn format_age(secs: u64) -> (r: String)
    ensures
        r@ == spec_format_age(secs),
{
    let (n, unit) = if secs < 60 {
        (secs, "s ago")
    } else if secs < 3600 {
        (secs / 60, "m ago")
    } else if secs < 86400 {
        (secs / 3600, "h ago")
    } else {
        (secs / 86400, "d ago")
    };
    let mut r = decimal_string(n);
    r.append(unit);
    r
}

} // verus!
