//! Points in time and how they are told.

use vstd::prelude::*;
use vstd::string::StringExecFns;

use crate::formats;
use crate::outside;
use crate::text;

verus! {

/// The first second of the calendar.
pub const FIRST_SECOND: i64 = -8334601228800;

/// The last second of the calendar.
pub const LAST_SECOND: i64 = 8210266876799;

/// The first second of the year 0.
pub const FIRST_COMMON_SECOND: i64 = -62167219200;

/// The last second of the year 9999.
pub const LAST_COMMON_SECOND: i64 = 253402300799;

/// The seconds of one day.
pub const DAY_SECONDS: i64 = 86400;

/// A point in time: seconds since the start of 1970 in UTC, and nanoseconds
/// within the second. A leap second is told by nanoseconds past one second.
#[derive(Clone, Copy, Debug, PartialEq, Eq, Structural)]
pub struct Moment {
    pub seconds: i64,
    pub nanos: u32,
}

impl Moment {
    /// A point in time that the calendar holds.
    pub open spec fn valid(self) -> bool {
        &&& FIRST_SECOND <= self.seconds <= LAST_SECOND
        &&& self.nanos < 1_000_000_000 || (self.nanos < 2_000_000_000 && self.seconds % 60 == 59)
    }

    /// A point in time in the years 0 to 9999.
    pub open spec fn common(self) -> bool {
        &&& FIRST_COMMON_SECOND <= self.seconds <= LAST_COMMON_SECOND
        &&& self.valid()
    }

    pub open spec fn earlier(self, other: Moment) -> bool {
        self.seconds < other.seconds || (self.seconds == other.seconds && self.nanos < other.nanos)
    }

    /// Whether the calendar holds this point in time.
    pub fn is_valid(&self) -> (res: bool)
        ensures
            res == self.valid(),
    {
        let seconds = self.seconds;
        let in_calendar = FIRST_SECOND <= seconds && seconds <= LAST_SECOND;
        if !in_calendar {
            return false;
        }
        let second: i64 = if seconds < 0 {
            let r: i64 = (-(seconds + 1)) % 60;
            59 - r
        } else {
            seconds % 60
        };
        assert(second == seconds % 60);
        self.nanos < 1_000_000_000 || (self.nanos < 2_000_000_000 && second == 59)
    }

    /// Whether this point in time comes before the other.
    pub fn is_before(&self, other: &Moment) -> (res: bool)
        ensures
            res == self.earlier(*other),
    {
        self.seconds < other.seconds || (self.seconds == other.seconds && self.nanos < other.nanos)
    }
}

/// The nanoseconds from `b` to `a`. A leap second counts where it lies between
/// the two times of day.
pub open spec fn nanos_between(a: Moment, b: Moment) -> int {
    let time_a = a.seconds % 86400;
    let time_b = b.seconds % 86400;
    let leap: int = if time_a > time_b && b.nanos >= 1_000_000_000 {
        1
    } else if time_a < time_b && a.nanos >= 1_000_000_000 {
        -1
    } else {
        0
    };
    (a.seconds - b.seconds + leap) * 1_000_000_000 + a.nanos - b.nanos
}

/// The whole seconds in a span of nanoseconds, rounded toward zero.
pub open spec fn whole_seconds(nanos: int) -> int {
    if nanos < 0 {
        -((-nanos) / 1_000_000_000)
    } else {
        nanos / 1_000_000_000
    }
}

fn time_of_day(seconds: i64) -> (res: i64)
    requires
        FIRST_SECOND <= seconds <= LAST_SECOND,
    ensures
        res == seconds % 86400,
{
    if seconds < 0 {
        let r: i64 = (-(seconds + 1)) % 86400;
        86399 - r
    } else {
        seconds % 86400
    }
}

/// The whole seconds from `b` to `a`, rounded toward zero.
pub fn seconds_between(a: &Moment, b: &Moment) -> (res: i64)
    requires
        a.valid(),
        b.valid(),
    ensures
        res == whole_seconds(nanos_between(*a, *b)),
{
    let time_a = time_of_day(a.seconds);
    let time_b = time_of_day(b.seconds);
    let leap: i64 = if time_a > time_b && b.nanos >= 1_000_000_000 {
        1
    } else if time_a < time_b && a.nanos >= 1_000_000_000 {
        -1
    } else {
        0
    };
    let seconds: i128 = (a.seconds - b.seconds + leap) as i128;
    let nanos: i128 = seconds * 1_000_000_000 + (a.nanos as i128) - (b.nanos as i128);
    if nanos < 0 {
        let n: i128 = (-nanos) / 1_000_000_000;
        -(n as i64)
    } else {
        let n: i128 = nanos / 1_000_000_000;
        n as i64
    }
}

/// The present.
pub fn now() -> (res: Moment)
    ensures
        res.valid(),
{
    outside::current_moment()
}

/// The RFC 3339 text of a point in time.
pub open spec fn stamp(moment: Moment) -> Seq<char> {
    outside::rfc3339_text(moment.seconds, moment.nanos)
}

/// The point in time a number of days later. A leap second becomes the second before it.
pub open spec fn days_later(moment: Moment, days: int) -> Moment {
    Moment {
        seconds: (moment.seconds + days * 86400) as i64,
        nanos: if moment.nanos >= 1_000_000_000 {
            (moment.nanos - 1_000_000_000) as u32
        } else {
            moment.nanos
        },
    }
}

/// The point in time a number of days later, where the calendar holds it.
pub fn after_days(moment: &Moment, days: i64) -> (res: Moment)
    requires
        moment.valid(),
        0 < days <= 1_000_000,
        moment.seconds + days * 86400 <= LAST_SECOND,
    ensures
        res == days_later(*moment, days as int),
        res.valid(),
{
    let nanos: u32 = if moment.nanos >= 1_000_000_000 {
        moment.nanos - 1_000_000_000
    } else {
        moment.nanos
    };
    Moment { seconds: moment.seconds + days * 86400, nanos }
}

/// Writes the RFC 3339 text of a point in time. In the years 0 to 9999 the
/// texts are ordered as the times are, and a text reads back as the time.
pub fn rfc3339(moment: &Moment) -> (res: String)
    requires
        moment.valid(),
    ensures
        res@ == stamp(*moment),
        moment.common() ==> read_moment(res@) == Some(*moment),
        forall|other: Moment|
            moment.common() && other.common() && other.earlier(*moment) ==> text::precedes(
                #[trigger] stamp(other),
                res@,
            ),
        forall|other: Moment|
            moment.common() && other.common() && moment.earlier(other) ==> text::precedes(
                res@,
                #[trigger] stamp(other),
            ),
{
    outside::write_rfc3339(moment)
}

/// The RFC 3339 text of a second since the start of 1970, where the calendar holds it.
pub open spec fn epoch_text(epoch: i64) -> Option<Seq<char>> {
    if FIRST_SECOND <= epoch <= LAST_SECOND {
        Some(outside::rfc3339_text(epoch, 0))
    } else {
        None
    }
}

pub fn epoch_to_rfc3339(epoch: i64) -> (res: Option<String>)
    ensures
        text::opt_text(res) == epoch_text(epoch),
{
    if FIRST_SECOND <= epoch && epoch <= LAST_SECOND {
        Some(outside::write_rfc3339(&Moment { seconds: epoch, nanos: 0 }))
    } else {
        None
    }
}

/// How a time is told in short: relative to `now` where it is near, by its date
/// where it lies two days back or more. A text that is no time stands for itself.
pub open spec fn short_time_text(value: Seq<char>, time: Option<Moment>, now: Moment) -> Seq<char> {
    match time {
        None => if text::is_blank(value) {
            "unknown"@
        } else {
            value
        },
        Some(time) => {
            let ahead = whole_seconds(nanos_between(time, now));
            let past = whole_seconds(nanos_between(now, time));
            if ahead >= 60 {
                formats::duration_text(ahead, "in "@)
            } else if past < 60 {
                "just now"@
            } else if past < 2 * 86400 {
                formats::duration_text(past, ""@) + " ago"@
            } else {
                outside::month_day_text(time.seconds, time.nanos)
            }
        },
    }
}

/// The point in time that a text reads as.
pub open spec fn read_moment(value: Seq<char>) -> Option<Moment> {
    match outside::rfc3339_moment(value) {
        Some((seconds, nanos)) => Some(Moment { seconds, nanos }),
        None => None,
    }
}

/// Tells a time in short, given what its text reads as and the present.
pub fn short_time_of(value: &str, time: Option<Moment>, now: &Moment) -> (res: String)
    requires
        time matches Some(t) ==> t.valid(),
        now.valid(),
    ensures
        res@ == short_time_text(value@, time, *now),
{
    let time = match time {
        Some(time) => time,
        None => {
            return if text::blank(value) {
                "unknown".to_owned()
            } else {
                value.to_owned()
            };
        },
    };
    let ahead = seconds_between(&time, now);
    let past = seconds_between(now, &time);
    if ahead >= 60 {
        return formats::format_duration(ahead, "in ");
    }
    if past < 60 {
        return "just now".to_owned();
    }
    if past < 172800 {
        let mut out = formats::format_duration(past, "");
        out.append(" ago");
        return out;
    }
    outside::write_month_day(&time)
}

/// Tells a time in short as of `now`.
pub fn short_time_at(value: &str, now: &Moment) -> (res: String)
    requires
        now.valid(),
    ensures
        res@ == short_time_text(value@, read_moment(value@), *now),
{
    short_time_of(value, outside::read_rfc3339(value), now)
}

/// Tells a time in short as of the present.
pub fn short_time(value: &str) -> (res: String)
    ensures
        exists|now: Moment|
            #![trigger now.valid()]
            now.valid() && res@ == short_time_text(value@, read_moment(value@), now),
{
    let now = now();
    short_time_at(value, &now)
}

// ---------------------------------------------------------------------------
// What holds of times
// ---------------------------------------------------------------------------

/// Of two moments one is earlier, or they are the same; and earlier goes on.
pub proof fn moments_are_in_order(a: Moment, b: Moment, c: Moment)
    ensures
        !a.earlier(a),
        a != b ==> a.earlier(b) != b.earlier(a),
        a.earlier(b) && b.earlier(c) ==> a.earlier(c),
        a.seconds < b.seconds ==> a.earlier(b),
        a.seconds == b.seconds && a.nanos < b.nanos ==> a.earlier(b),
{
}

/// Between two moments lie as many nanoseconds as their places differ by, with
/// the sign of their order; the way back is as long.
pub proof fn distances_are_exact(a: Moment, b: Moment)
    ensures
        a.nanos < 1_000_000_000 && b.nanos < 1_000_000_000 ==> nanos_between(a, b) == (a.seconds
            * 1_000_000_000 + a.nanos) - (b.seconds * 1_000_000_000 + b.nanos),
        nanos_between(a, b) == -nanos_between(b, a),
        nanos_between(a, a) == 0,
{
}

/// Days later is as many times twenty-four hours later; a leap second is left by
/// it.
pub proof fn days_are_whole(moment: Moment, days: int)
    requires
        0 <= days,
        moment.seconds + days * 86400 <= i64::MAX,
    ensures
        days_later(moment, days).seconds - moment.seconds == days * 86400,
        moment.nanos < 1_000_000_000 ==> days_later(moment, days).nanos == moment.nanos,
        moment.nanos >= 1_000_000_000 ==> days_later(moment, days).nanos == moment.nanos
            - 1_000_000_000,
        days > 0 ==> moment.earlier(days_later(moment, days)),
{
    assert(days * 86400 >= 0);
}

/// A part of a second counts for none, whichever way the time runs.
pub proof fn parts_of_a_second_are_dropped(nanos: int)
    ensures
        -1_000_000_000 < nanos < 1_000_000_000 ==> whole_seconds(nanos) == 0,
        whole_seconds(-nanos) == -whole_seconds(nanos),
        nanos >= 0 ==> whole_seconds(nanos) * 1_000_000_000 <= nanos < (whole_seconds(nanos) + 1)
            * 1_000_000_000,
{
}

/// A time is told from now: what lies less than a minute away is now, what lies
/// ahead is told with how far, what lies less than two days back with how long
/// ago, and what lies further back by its day.
pub proof fn times_are_told_from_now(value: Seq<char>, time: Moment, now: Moment)
    ensures
        ({
            let told = short_time_text(value, Some(time), now);
            let ahead = nanos_between(time, now);
            &&& ahead >= 60_000_000_000 ==> told == formats::duration_text(
                ahead / 1_000_000_000,
                "in "@,
            )
            &&& -60_000_000_000 < ahead < 60_000_000_000 ==> told == "just now"@
            &&& -172_800_000_000_000 < ahead <= -60_000_000_000 ==> told == formats::duration_text(
                (-ahead) / 1_000_000_000,
                ""@,
            ) + " ago"@
            &&& ahead <= -172_800_000_000_000 ==> told == outside::month_day_text(
                time.seconds,
                time.nanos,
            )
        }),
{
    distances_are_exact(time, now);
}

/// What is not a time is told as it is, and a blank one as unknown.
pub proof fn other_texts_are_told_as_they_are(value: Seq<char>, now: Moment)
    ensures
        text::is_blank(value) ==> short_time_text(value, None, now) == "unknown"@,
        !text::is_blank(value) ==> short_time_text(value, None, now) == value,
{
}

/// A second of the calendar is written as a time; one outside it is not.
pub proof fn seconds_of_the_calendar_are_written(epoch: i64)
    ensures
        FIRST_SECOND <= epoch <= LAST_SECOND ==> epoch_text(epoch) == Some(
            outside::rfc3339_text(epoch, 0),
        ),
        epoch < FIRST_SECOND || epoch > LAST_SECOND ==> epoch_text(epoch) is None,
{
}

} // verus!
