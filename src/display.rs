use vstd::prelude::*;

use crate::models::decimal_digits;
use crate::text::{decimal_u64, trim, trimmed};

verus! {

/// How long a round has been running, in words: hours and minutes past two hours, minutes
/// and seconds past two minutes, "1 minute .. seconds" from 100 seconds, else seconds.
pub open spec fn duration_text(ms: u64) -> Seq<char> {
    let secs = ms as nat / 1000;
    let minutes = secs / 60;
    let hours = minutes / 60;
    if hours > 1 {
        decimal_digits(hours) + " hours "@ + decimal_digits(minutes % 60) + " minutes"@
    } else if minutes > 1 {
        decimal_digits(minutes) + " minutes "@ + decimal_digits(secs % 60) + " seconds"@
    } else if secs >= 100 {
        decimal_digits(minutes) + " minute "@ + decimal_digits(secs % 60) + " seconds"@
    } else {
        decimal_digits(secs) + " seconds"@
    }
}

/// Writes a duration of `ms` milliseconds in words; see `duration_text`.
pub fn format_duration(ms: u64) -> (r: String)
    ensures
        r@ == duration_text(ms),
{
    let secs = ms / 1000;
    let minutes = secs / 60;
    let hours = minutes / 60;
    let (first, unit, second, second_unit) = if hours > 1 {
        (hours, " hours ", minutes % 60, " minutes")
    } else if minutes > 1 {
        (minutes, " minutes ", secs % 60, " seconds")
    } else if secs >= 100 {
        (minutes, " minute ", secs % 60, " seconds")
    } else {
        let mut r = decimal_u64(secs);
        r.append(" seconds");
        return r;
    };
    let mut r = decimal_u64(first);
    r.append(unit);
    r.append(decimal_u64(second).as_str());
    r.append(second_unit);
    r
}

/// The longest name shown: 25 characters.
pub const NAME_WIDTH: usize = 25;

/// A name as shown in lists: without surrounding white space, cut after 25 characters.
pub open spec fn shown_name(name: Seq<char>) -> Seq<char> {
    let t = trimmed(name);
    if t.len() > NAME_WIDTH {
        t.take(NAME_WIDTH as int)
    } else {
        t
    }
}

/// Shortens a name for display; see `shown_name`.
pub fn trim_name(name: &str) -> (r: &str)
    ensures
        r@ == shown_name(name@),
{
    let t = trim(name);
    let n = t.unicode_len();
    if n > NAME_WIDTH {
        let r = t.substring_char(0, NAME_WIDTH);
        assert(r@ =~= t@.take(NAME_WIDTH as int));
        r
    } else {
        t
    }
}

} // verus!
