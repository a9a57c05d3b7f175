//! Points in time and the freshness window.

use vstd::prelude::*;

verus! {

/// How long a check of a specification stays fresh.
pub const CHECK_INTERVAL_HOURS: i64 = 24;

const FIRST_SECOND: i64 = -8_334_601_228_800;

const LAST_SECOND: i64 = 8_210_266_876_799;

/// A point in time, as seconds since 1970-01-01T00:00:00Z and nanoseconds
/// after that second. Nanoseconds from 1_000_000_000 on stand for a leap
/// second, which follows the last second of a minute.
pub struct Instant {
    pub seconds: int,
    pub nanos: int,
}

/// The instants that the calendar covers, from the year -262143 to the year
/// 262142.
pub open spec fn representable(seconds: int, nanos: int) -> bool {
    &&& -8_334_601_228_800 <= seconds <= 8_210_266_876_799
    &&& 0 <= nanos < 2_000_000_000
    &&& nanos >= 1_000_000_000 ==> seconds % 60 == 59
}

/// Nanoseconds from `from` to `to`, negative where `to` is the earlier one. A
/// leap second counts for the instant that stands in it, where the other one
/// is later in the day (earlier, if `to` stands in it).
pub open spec fn elapsed_nanos(from: Instant, to: Instant) -> int {
    let leap: int = if to.seconds % 86_400 > from.seconds % 86_400 && from.nanos >= 1_000_000_000 {
        1
    } else if to.seconds % 86_400 < from.seconds % 86_400 && to.nanos >= 1_000_000_000 {
        -1
    } else {
        0
    };
    (to.seconds - from.seconds + leap) * 1_000_000_000 + (to.nanos - from.nanos)
}

/// Whole hours in `nanos` nanoseconds, rounded towards zero.
pub open spec fn whole_hours(nanos: int) -> int {
    if nanos >= 0 {
        nanos / 3_600_000_000_000
    } else {
        -((-nanos) / 3_600_000_000_000)
    }
}

/// Less than a day has passed from `last_checked` to `now`.
pub open spec fn fresh(last_checked: Instant, now: Instant) -> bool {
    elapsed_nanos(last_checked, now) < 24 * 3_600_000_000_000
}

/// The RFC 3339 form of an instant in UTC.
pub uninterp spec fn rfc3339(seconds: i64, nanos: u32) -> Seq<char>;

/// The instant that an RFC 3339 text stands for, as seconds since 1970 and
/// nanoseconds, where it is one.
pub uninterp spec fn rfc3339_instant(text: Seq<char>) -> Option<(i64, u32)>;

/// The instant that an RFC 3339 text stands for, where it is one.
pub open spec fn instant_of(text: Seq<char>) -> Option<Instant> {
    match rfc3339_instant(text) {
        Some((seconds, nanos)) => Some(Instant { seconds: seconds as int, nanos: nanos as int }),
        None => None,
    }
}

/// The RFC 3339 form of an instant in UTC.
pub open spec fn rfc3339_text(at: Instant) -> Seq<char> {
    rfc3339(at.seconds as i64, at.nanos as u32)
}

/// The years from 0 to 9999, which RFC 3339 covers.
pub open spec fn in_four_digit_year(seconds: int) -> bool {
    -62_167_219_200 <= seconds <= 253_402_300_799
}

/// A point in time that the calendar covers.
#[derive(Clone, Copy, Debug, PartialEq, Eq, Structural)]
pub struct Timestamp {
    seconds: i64,
    nanos: u32,
}

impl View for Timestamp {
    type V = Instant;

    closed spec fn view(&self) -> Instant {
        Instant { seconds: self.seconds as int, nanos: self.nanos as int }
    }
}

/// Whole hours from one instant to another: `num_hours` of what
/// `chrono::DateTime::signed_duration_since` gives. The arguments are seconds
/// since 1970 and nanoseconds, as `chrono::DateTime::from_timestamp` takes
/// them; it accepts every representable instant.
#[verifier::external_body]
fn hours_between(from_seconds: i64, from_nanos: u32, to_seconds: i64, to_nanos: u32) -> (hours: i64)
    requires
        representable(from_seconds as int, from_nanos as int),
        representable(to_seconds as int, to_nanos as int),
    ensures
        hours == whole_hours(
            elapsed_nanos(
                (Instant { seconds: from_seconds as int, nanos: from_nanos as int }),
                (Instant { seconds: to_seconds as int, nanos: to_nanos as int }),
            ),
        ),
{
    let from = chrono::DateTime::from_timestamp(from_seconds, from_nanos).unwrap();
    let to = chrono::DateTime::from_timestamp(to_seconds, to_nanos).unwrap();
    to.signed_duration_since(from).num_hours()
}

/// `chrono::DateTime::to_rfc3339` of an instant in UTC, which depends on the
/// instant alone. It writes every digit of the nanoseconds that is not zero, so
/// that `chrono::DateTime::parse_from_rfc3339` reads the same instant back, if
/// the year has four digits: it reads no others.
#[verifier::external_body]
fn write_rfc3339(seconds: i64, nanos: u32) -> (text: String)
    requires
        representable(seconds as int, nanos as int),
    ensures
        text@ == rfc3339(seconds, nanos),
        in_four_digit_year(seconds as int) ==> rfc3339_instant(text@) == Some((seconds, nanos)),
{
    chrono::DateTime::from_timestamp(seconds, nanos).unwrap().to_rfc3339()
}

/// `chrono::DateTime::parse_from_rfc3339`, with the instant taken in UTC. The
/// years of such a text have four digits, so the instant is representable.
#[verifier::external_body]
fn read_rfc3339(text: &str) -> (instant: Option<(i64, u32)>)
    ensures
        instant == rfc3339_instant(text@),
        instant matches Some(at) ==> representable(at.0 as int, at.1 as int),
{
    match chrono::DateTime::parse_from_rfc3339(text) {
        Ok(at) => Some((at.timestamp(), at.timestamp_subsec_nanos())),
        Err(_) => None,
    }
}

impl Timestamp {
    #[verifier::type_invariant]
    spec fn in_range(self) -> bool {
        representable(self.seconds as int, self.nanos as int)
    }

    /// The instant `nanos` nanoseconds after second `seconds` since 1970, if
    /// it is representable.
    pub fn new(seconds: i64, nanos: u32) -> (timestamp: Option<Timestamp>)
        ensures
            timestamp is Some <==> representable(seconds as int, nanos as int),
            timestamp matches Some(at) ==> at@ == (Instant {
                seconds: seconds as int,
                nanos: nanos as int,
            }),
    {
        if seconds < FIRST_SECOND || seconds > LAST_SECOND || nanos >= 2_000_000_000 {
            return None;
        }
        // The first second begins a minute.
        let past: i64 = seconds - FIRST_SECOND;
        if nanos >= 1_000_000_000 && past % 60 != 59 {
            return None;
        }
        Some(Timestamp { seconds, nanos })
    }

    /// Seconds since 1970-01-01T00:00:00Z.
    pub fn seconds(&self) -> (seconds: i64)
        ensures
            seconds == self@.seconds,
    {
        self.seconds
    }

    /// Nanoseconds after that second.
    pub fn nanos(&self) -> (nanos: u32)
        ensures
            nanos == self@.nanos,
    {
        self.nanos
    }

    /// The RFC 3339 form of this instant in UTC.
    pub fn to_rfc3339(&self) -> (text: String)
        ensures
            text@ == rfc3339_text(self@),
            in_four_digit_year(self@.seconds) ==> instant_of(text@) == Some(self@),
    {
        proof {
            use_type_invariant(self);
        }
        write_rfc3339(self.seconds, self.nanos)
    }

    /// The instant that an RFC 3339 text stands for, if it is one.
    pub fn parse_from_rfc3339(text: &str) -> (timestamp: Option<Timestamp>)
        ensures
            match timestamp {
                Some(at) => instant_of(text@) == Some(at@),
                None => instant_of(text@) is None,
            },
    {
        match read_rfc3339(text) {
            Some((seconds, nanos)) => Some(Timestamp { seconds, nanos }),
            None => None,
        }
    }
}

/// Whether a check made at `last_checked` still counts at `now`: fewer than
/// `CHECK_INTERVAL_HOURS` whole hours have passed. A check in the future is
/// fresh.
pub fn is_fresh(last_checked: &Timestamp, now: &Timestamp) -> (result: bool)
    ensures
        result == fresh(last_checked@, now@),
{
    proof {
        use_type_invariant(last_checked);
        use_type_invariant(now);
    }
    hours_between(last_checked.seconds, last_checked.nanos, now.seconds, now.nanos)
        < CHECK_INTERVAL_HOURS
}

/// A check is fresh for exactly a day, if no leap second is involved, and from
/// any time before it.
pub proof fn law_checks_are_fresh_for_a_day(last_checked: Instant, now: Instant)
    requires
        last_checked.nanos < 1_000_000_000,
        now.nanos < 1_000_000_000,
    ensures
        fresh(last_checked, now) <==> now.seconds * 1_000_000_000 + now.nanos < (
        last_checked.seconds + 86_400) * 1_000_000_000 + last_checked.nanos,
{
}

/// The days of the calendar before the first day of a year.
pub open spec fn days_before_year(year: int) -> int {
    365 * year + (year + 3) / 4 - (year + 99) / 100 + (year + 399) / 400
}

/// The second, counted from 1970, with which a year begins.
pub open spec fn first_second_of_year(year: int) -> int {
    86_400 * (days_before_year(year) - days_before_year(1970))
}

/// The calendar covers the years -262143 to 262142 whole, and no other second.
/// A leap second may follow the last second of any minute.
pub proof fn law_calendar_covers_whole_years(seconds: int, nanos: int)
    ensures
        0 <= nanos < 1_000_000_000 ==> (representable(seconds, nanos) <==> first_second_of_year(
            -262_143,
        ) <= seconds < first_second_of_year(262_143)),
        1_000_000_000 <= nanos < 2_000_000_000 ==> (representable(seconds, nanos)
            <==> representable(seconds, 0) && (seconds + 1) % 60 == 0),
        !(0 <= nanos < 2_000_000_000) ==> !representable(seconds, nanos),
{
}

/// The years that RFC 3339 covers are 0 to 9999.
pub proof fn law_four_digit_years(seconds: int)
    ensures
        in_four_digit_year(seconds) <==> first_second_of_year(0) <= seconds
            < first_second_of_year(10_000),
{
}

/// The time from one instant to another is the time back with its sign
/// changed, and without leap seconds it is the difference in nanoseconds.
pub proof fn law_elapsed_time(from: Instant, to: Instant)
    ensures
        elapsed_nanos(to, from) == -elapsed_nanos(from, to),
        from.nanos < 1_000_000_000 && to.nanos < 1_000_000_000 ==> elapsed_nanos(from, to) == (
        to.seconds * 1_000_000_000 + to.nanos) - (from.seconds * 1_000_000_000 + from.nanos),
{
}

/// A leap second lasts a second: to an instant later in the day it is as far
/// from inside a leap second as from a second earlier; to one that is not
/// later, its nanoseconds count as they are.
pub proof fn law_leap_seconds_last_a_second(from: Instant, to: Instant)
    requires
        1_000_000_000 <= from.nanos < 2_000_000_000,
        to.nanos < 1_000_000_000,
    ensures
        from.seconds % 86_400 < to.seconds % 86_400 ==> elapsed_nanos(from, to) == elapsed_nanos(
            (Instant { seconds: from.seconds, nanos: from.nanos - 1_000_000_000 }),
            to,
        ),
        from.seconds % 86_400 >= to.seconds % 86_400 ==> elapsed_nanos(from, to) == (to.seconds
            - from.seconds) * 1_000_000_000 + (to.nanos - from.nanos),
{
}

/// Whole hours are what is left of a time when what is less than an hour is
/// dropped: they differ from it by less than an hour, towards zero.
pub proof fn law_whole_hours_round_towards_zero(nanos: int)
    ensures
        nanos >= 0 ==> 0 <= nanos - whole_hours(nanos) * 3_600_000_000_000 < 3_600_000_000_000,
        nanos <= 0 ==> 0 <= whole_hours(nanos) * 3_600_000_000_000 - nanos < 3_600_000_000_000,
{
}

/// A check is fresh exactly while less than twenty-four hours have passed since,
/// leap seconds counted.
pub proof fn law_fresh_means_less_than_a_day(last_checked: Instant, now: Instant)
    ensures
        fresh(last_checked, now) <==> elapsed_nanos(last_checked, now) < 86_400_000_000_000,
{
}

/// The text of an instant is the RFC 3339 form of its own seconds and
/// nanoseconds, and the instant of a text is the one that RFC 3339 reads.
pub proof fn law_texts_of_instants(seconds: i64, nanos: u32, text: Seq<char>)
    ensures
        rfc3339_text((Instant { seconds: seconds as int, nanos: nanos as int })) == rfc3339(
            seconds,
            nanos,
        ),
        instant_of(text) is Some <==> rfc3339_instant(text) is Some,
        rfc3339_instant(text) == Some((seconds, nanos)) <==> instant_of(text) == Some(
            (Instant { seconds: seconds as int, nanos: nanos as int }),
        ),
{
}

} // verus!
