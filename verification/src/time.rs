//! Points in time, as the audit log and the pending approvals record them.

use crate::text::digit;
use vstd::prelude::*;

verus! {

/// The span of seconds that a calendar date can be given for: from the year -262143 to the end of
/// the year 262142.
pub const FIRST_SECOND: i64 = -8_334_601_228_800;

pub const LAST_SECOND: i64 = 8_210_266_876_799;

/// A point in time, in seconds since 1970 (UTC) and nanoseconds past that second. During a leap
/// second, which follows the last second of a minute, the nanoseconds go past a thousand million.
#[derive(Clone, Copy, Debug, PartialEq, Eq)]
pub struct Timestamp {
    secs: i64,
    nanos: u32,
}

/// A point in time as whole seconds and nanoseconds.
pub struct TimeView {
    pub secs: int,
    pub nanos: int,
}

/// There is a date and a time of day for `time`.
pub open spec fn has_date(time: TimeView) -> bool {
    &&& FIRST_SECOND <= time.secs <= LAST_SECOND
    &&& 0 <= time.nanos < 2_000_000_000
    &&& time.nanos >= 1_000_000_000 ==> time.secs % 60 == 59
}

/// `a` lies before `b`.
pub open spec fn earlier(a: TimeView, b: TimeView) -> bool {
    a.secs < b.secs || (a.secs == b.secs && a.nanos < b.nanos)
}

impl View for Timestamp {
    type V = TimeView;

    closed spec fn view(&self) -> TimeView {
        TimeView { secs: self.secs as int, nanos: self.nanos as int }
    }
}

impl Timestamp {
    #[verifier::type_invariant]
    spec fn dated(self) -> bool {
        has_date(self@)
    }

    /// The point `nanos` nanoseconds after `secs` seconds since 1970, if there is a date for it.
    pub fn new(secs: i64, nanos: u32) -> (time: Option<Timestamp>)
        ensures
            match time {
                Some(t) => has_date(t@) && t@.secs == secs && t@.nanos == nanos,
                None => !has_date((TimeView { secs: secs as int, nanos: nanos as int })),
            },
    {
        if secs < FIRST_SECOND || secs > LAST_SECOND || nanos >= 2_000_000_000 {
            return None;
        }
        if nanos >= 1_000_000_000 {
            // The remainder by Rust's division has the sign of `secs`.
            let rest = secs % 60;
            if rest != 59 && rest != -1 {
                return None;
            }
        }
        Some(Timestamp { secs, nanos })
    }

    /// The seconds since 1970.
    pub fn secs(&self) -> (secs: i64)
        ensures
            secs == self@.secs,
    {
        self.secs
    }

    /// The nanoseconds past the second.
    pub fn nanos(&self) -> (nanos: u32)
        ensures
            nanos == self@.nanos,
    {
        self.nanos
    }

    /// Whether this point lies before `other`.
    pub fn is_before(&self, other: &Timestamp) -> (answer: bool)
        ensures
            answer == earlier(self@, other@),
    {
        self.secs < other.secs || (self.secs == other.secs && self.nanos < other.nanos)
    }

    /// The time of day (UTC) in hours, minutes and seconds.
    pub fn clock(&self) -> (text: String)
        ensures
            text@ == clock_text(self@),
    {
        proof {
            use_type_invariant(self);
        }
        format_clock(self.secs, self.nanos)
    }

    /// The date and the time of day (UTC).
    pub fn date_and_time(&self) -> (text: String)
        ensures
            text@ == date_text(self@.secs, self@.nanos),
    {
        proof {
            use_type_invariant(self);
        }
        format_date(self.secs, self.nanos)
    }
}

/// `n` in two digits.
pub open spec fn two_digits(n: int) -> Seq<char> {
    seq![digit(n / 10), digit(n % 10)]
}

/// The time of day of `time` in hours, minutes and seconds; a leap second is second 60.
pub open spec fn clock_text(time: TimeView) -> Seq<char> {
    let hour = time.secs % 86400 / 3600;
    let minute = time.secs % 3600 / 60;
    let second = time.secs % 60 + time.nanos / 1_000_000_000;
    two_digits(hour) + seq![':'] + two_digits(minute) + seq![':'] + two_digits(second)
}

/// What `chrono` prints for a point in time in UTC: the date, the time of day and `UTC`.
pub uninterp spec fn date_text(secs: int, nanos: int) -> Seq<char>;

/// `chrono::DateTime::format` with `%H:%M:%S`, for a point in UTC: hours, minutes and seconds of
/// the day in two digits each, the leap second being 60.
#[verifier::external_body]
fn format_clock(secs: i64, nanos: u32) -> (text: String)
    requires
        has_date((TimeView { secs: secs as int, nanos: nanos as int })),
    ensures
        text@ == clock_text((TimeView { secs: secs as int, nanos: nanos as int })),
{
    let time = chrono::DateTime::<chrono::Utc>::from_timestamp(secs, nanos).unwrap();
    time.format("%H:%M:%S").to_string()
}

/// The `Display` form of a `chrono::DateTime` in UTC, which depends on the point in time alone.
#[verifier::external_body]
fn format_date(secs: i64, nanos: u32) -> (text: String)
    requires
        has_date((TimeView { secs: secs as int, nanos: nanos as int })),
    ensures
        text@ == date_text(secs as int, nanos as int),
{
    chrono::DateTime::<chrono::Utc>::from_timestamp(secs, nanos).unwrap().to_string()
}

/// Of two different points in time one lies before the other, and never each before the other.
pub proof fn law_earlier_is_a_strict_total_order(a: TimeView, b: TimeView, c: TimeView)
    ensures
        !(earlier(a, b) && earlier(b, a)),
        earlier(a, b) || earlier(b, a) || a == b,
        earlier(a, b) && earlier(b, c) ==> earlier(a, c),
{
}

/// An earlier second is earlier, whatever the nanoseconds; within a second, fewer nanoseconds are.
pub proof fn law_earlier_follows_the_clock(a: TimeView, b: TimeView)
    ensures
        a.secs < b.secs ==> earlier(a, b),
        a.secs > b.secs ==> !earlier(a, b),
        a.secs == b.secs ==> (earlier(a, b) <==> a.nanos < b.nanos),
{
}

/// Every point from the start of the year -262143 to the end of the year 262142 has a date, and so
/// has every leap second at the end of a minute in that span.
pub proof fn law_points_with_a_date(time: TimeView)
    ensures
        time.secs < -8_334_601_228_800 || time.secs > 8_210_266_876_799 ==> !has_date(time),
        time.nanos < 0 || time.nanos >= 2_000_000_000 ==> !has_date(time),
        -8_334_601_228_800 <= time.secs <= 8_210_266_876_799 && 0 <= time.nanos < 1_000_000_000
            ==> has_date(time),
        -8_334_601_228_800 <= time.secs <= 8_210_266_876_799 && 1_000_000_000 <= time.nanos
            < 2_000_000_000 ==> (has_date(time) <==> time.secs % 60 == 59),
{
}

/// The two digits of `text` at `i` as a number.
pub open spec fn number_at(text: Seq<char>, i: int) -> int {
    (text[i] as int - '0' as int) * 10 + (text[i + 1] as int - '0' as int)
}

/// The clock shows hours, minutes and seconds of the day, each in two digits, that add up to the
/// seconds since midnight; in a leap second it shows second 60.
pub proof fn law_clock_adds_up(time: TimeView)
    requires
        has_date(time),
    ensures
        ({
            let text = clock_text(time);
            &&& text.len() == 8
            &&& text[2] == ':'
            &&& text[5] == ':'
            &&& 0 <= number_at(text, 0) < 24
            &&& 0 <= number_at(text, 3) < 60
            &&& 0 <= number_at(text, 6) <= 60
            &&& forall|i: int|
                0 <= i < 8 && i != 2 && i != 5 ==> '0' <= #[trigger] text[i] <= '9'
            &&& time.nanos < 1_000_000_000 ==> number_at(text, 6) < 60 && number_at(text, 0) * 3600
                + number_at(text, 3) * 60 + number_at(text, 6) == time.secs % 86400
            &&& time.nanos >= 1_000_000_000 ==> number_at(text, 6) == 60 && number_at(text, 0)
                * 3600 + number_at(text, 3) * 60 + 59 == time.secs % 86400
        }),
{
    let hour = time.secs % 86400 / 3600;
    let minute = time.secs % 3600 / 60;
    let second = time.secs % 60 + time.nanos / 1_000_000_000;
    assert(0 <= hour < 24 && 0 <= minute < 60 && 0 <= second <= 60);
    crate::text::lemma_digit(hour / 10);
    crate::text::lemma_digit(hour % 10);
    crate::text::lemma_digit(minute / 10);
    crate::text::lemma_digit(minute % 10);
    crate::text::lemma_digit(second / 10);
    crate::text::lemma_digit(second % 10);
    assert(hour * 3600 + minute * 60 + time.secs % 60 == time.secs % 86400);
}

/// A point in time is made of its seconds and nanoseconds as they are, before 1970 as after, exactly
/// where there is a date for it, and gives them back.
pub proof fn law_making_a_point(secs: i64, nanos: u32, time: Option<Timestamp>)
    requires
        call_ensures(Timestamp::new, (secs, nanos), time),
    ensures
        time is Some <==> -8_334_601_228_800 <= secs <= 8_210_266_876_799 && (nanos < 1_000_000_000
            || (nanos < 2_000_000_000 && secs as int % 60 == 59)),
        time matches Some(t) ==> t@.secs == secs && t@.nanos == nanos,
{
    law_points_with_a_date(TimeView { secs: secs as int, nanos: nanos as int });
}

/// A point in time shows its own seconds, nanoseconds, time of day and date.
pub proof fn law_reading_a_point(
    time: &Timestamp,
    secs: i64,
    nanos: u32,
    clock: String,
    date: String,
)
    requires
        call_ensures(Timestamp::secs, (time,), secs),
        call_ensures(Timestamp::nanos, (time,), nanos),
        call_ensures(Timestamp::clock, (time,), clock),
        call_ensures(Timestamp::date_and_time, (time,), date),
    ensures
        secs == time@.secs,
        nanos == time@.nanos,
        clock@ == clock_text(time@),
        date@ == date_text(secs as int, nanos as int),
{
}

} // verus!
