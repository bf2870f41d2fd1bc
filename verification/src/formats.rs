//! Small renderings of numbers and texts.

use vstd::prelude::*;
use vstd::string::StrSliceExecFns;
use vstd::string::StringExecFns;

use crate::decimal;
use crate::text;

verus! {

/// A span of seconds in whole minutes, hours or days, after `prefix`.
pub open spec fn duration_text(seconds: int, prefix: Seq<char>) -> Seq<char> {
    let minutes = if seconds < 0 {
        0
    } else {
        seconds / 60
    };
    if minutes < 60 {
        prefix + decimal::decimal(minutes) + "m"@
    } else if minutes / 60 < 48 {
        prefix + decimal::decimal(minutes / 60) + "h"@
    } else {
        prefix + decimal::decimal(minutes / 60 / 24) + "d"@
    }
}

pub fn format_duration(seconds: i64, prefix: &str) -> (res: String)
    ensures
        res@ == duration_text(seconds as int, prefix@),
{
    let seconds: i64 = if seconds < 0 {
        0
    } else {
        seconds
    };
    let minutes: i64 = seconds / 60;
    let mut out = prefix.to_owned();
    if minutes < 60 {
        out.append(decimal::integer_text(minutes).as_str());
        out.append("m");
        return out;
    }
    let hours: i64 = minutes / 60;
    if hours < 48 {
        out.append(decimal::integer_text(hours).as_str());
        out.append("h");
        return out;
    }
    out.append(decimal::integer_text(hours / 24).as_str());
    out.append("d");
    out
}

/// The length of a rate window in days or hours where it is a whole number of
/// them, and in minutes otherwise.
pub open spec fn window_text(minutes: int) -> Seq<char> {
    if minutes >= 1440 && minutes % 1440 == 0 {
        decimal::decimal(minutes / 1440) + "d"@
    } else if minutes >= 60 && minutes % 60 == 0 {
        decimal::decimal(minutes / 60) + "h"@
    } else {
        decimal::decimal(minutes) + "m"@
    }
}

pub fn usage_window_duration(minutes: i64) -> (res: String)
    ensures
        res@ == window_text(minutes as int),
{
    if minutes >= 1440 && minutes % 1440 == 0 {
        let mut out = decimal::integer_text(minutes / 1440);
        out.append("d");
        return out;
    }
    if minutes >= 60 && minutes % 60 == 0 {
        let mut out = decimal::integer_text(minutes / 60);
        out.append("h");
        return out;
    }
    let mut out = decimal::integer_text(minutes);
    out.append("m");
    out
}

/// The trimmed text, cut short with a note where it has more than `max` characters.
pub open spec fn truncated(value: Seq<char>, max: nat) -> Seq<char> {
    let value = text::trimmed(value);
    if value.len() <= max {
        value
    } else {
        let keep = if max < 20 {
            0
        } else {
            max - 20
        };
        value.take(keep) + "\n...[truncated]"@
    }
}

pub fn truncate_text(value: &str, max_chars: usize) -> (res: String)
    ensures
        res@ == truncated(value@, max_chars as nat),
{
    let value = text::trim(value);
    let total = value.unicode_len();
    if total <= max_chars {
        return value.to_owned();
    }
    let keep: usize = if max_chars < 20 {
        0
    } else {
        max_chars - 20
    };
    assert(value@.subrange(0, keep as int) =~= value@.take(keep as int));
    let mut out = value.substring_char(0, keep).to_owned();
    out.append("\n...[truncated]");
    out
}

/// A truncated text has no more characters than it may have, wherever the note
/// of the cut fits.
pub proof fn truncation_bounds_length(value: Seq<char>, max: nat)
    requires
        max >= 15,
    ensures
        truncated(value, max).len() <= max,
{
    reveal_strlit("\n...[truncated]");
}

/// A text that is short enough keeps all of its characters but the white space
/// around it.
pub proof fn short_texts_are_kept(value: Seq<char>, max: nat)
    requires
        text::trimmed(value).len() <= max,
    ensures
        truncated(value, max) == text::trimmed(value),
{
}

/// A length of time is told in minutes below an hour, in hours below two days,
/// and in days from then on, each cut down to the whole; a negative one counts as
/// none.
pub proof fn durations_are_told_in_whole_units(seconds: int, prefix: Seq<char>)
    ensures
        seconds < 0 ==> duration_text(seconds, prefix) == prefix + decimal::decimal(0) + "m"@,
        0 <= seconds < 3600 ==> duration_text(seconds, prefix) == prefix + decimal::decimal(
            seconds / 60,
        ) + "m"@,
        3600 <= seconds < 172_800 ==> duration_text(seconds, prefix) == prefix + decimal::decimal(
            seconds / 3600,
        ) + "h"@,
        172_800 <= seconds ==> duration_text(seconds, prefix) == prefix + decimal::decimal(
            seconds / 86_400,
        ) + "d"@,
{
}

/// A window is told in days where it is whole days, else in hours where it is
/// whole hours, else in minutes.
pub proof fn windows_are_told_in_the_largest_whole_unit(n: int)
    ensures
        n >= 1 ==> window_text(1440 * n) == decimal::decimal(n) + "d"@,
        n >= 1 && n % 24 != 0 ==> window_text(60 * n) == decimal::decimal(n) + "h"@,
        n % 60 != 0 || n < 60 ==> window_text(n) == decimal::decimal(n) + "m"@,
{
    assert((1440 * n) % 1440 == 0);
    assert((1440 * n) / 1440 == n);
    assert((60 * n) % 60 == 0);
    assert((60 * n) / 60 == n);
    if n % 24 != 0 {
        assert((60 * n) % 1440 == 60 * (n % 24));
    }
}

/// A text that is short enough is kept without the white space around it. A
/// longer one keeps its beginning, loses the rest, says so, and is shorter than
/// was allowed.
pub proof fn long_texts_are_cut(value: Seq<char>, max: nat)
    ensures
        text::trimmed(value).len() <= max ==> truncated(value, max) == text::trimmed(value),
        text::trimmed(value).len() > max && max >= 20 ==> {
            &&& truncated(value, max) == text::trimmed(value).take(max - 20)
                + "\n...[truncated]"@
            &&& truncated(value, max).len() == max - 5
        },
        text::trimmed(value).len() > max && max < 20 ==> truncated(value, max)
            == "\n...[truncated]"@,
{
    reveal_strlit("\n...[truncated]");
    assert(text::trimmed(value).take(0) + "\n...[truncated]"@ =~= "\n...[truncated]"@);
}

} // verus!
