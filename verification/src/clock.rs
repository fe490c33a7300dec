//! Points in time, read and taken apart by `chrono`.
use chrono::{Datelike, Timelike};
use vstd::prelude::*;

verus! {

/// A point in time: seconds since 1970-01-01 00:00:00 UTC, and nanoseconds within
/// the second, which exceed a whole second during a leap second.
#[derive(Clone, Copy, Debug, PartialEq, Eq, Structural)]
pub struct Instant {
    pub seconds: i64,
    pub nanos: u32,
}

/// The first second of the years that a text can name, less the largest offset
/// from UTC.
pub const FIRST_SECOND: i64 = -62_167_305_600;

/// The last second of the years that a text can name, plus the largest offset
/// from UTC.
pub const LAST_SECOND: i64 = 253_402_387_199;

/// Nanoseconds of a second.
pub const NANOS_PER_SECOND: u32 = 1_000_000_000;

impl Instant {
    /// Whether the point lies in the years from 0 to 9999, give or take a day, and
    /// has a leap second only at the end of a minute.
    pub open spec fn valid(self) -> bool {
        &&& FIRST_SECOND <= self.seconds <= LAST_SECOND
        &&& self.nanos < 2 * NANOS_PER_SECOND
        &&& self.nanos >= NANOS_PER_SECOND ==> self.seconds % 60 == 59
    }

    /// Seconds since midnight.
    pub open spec fn second_of_day(self) -> int {
        self.seconds as int % 86_400
    }

    /// Days since 1970-01-01.
    pub open spec fn day(self) -> int {
        self.seconds as int / 86_400
    }

    /// The hour of the day.
    pub open spec fn hour_spec(self) -> int {
        self.second_of_day() / 3600
    }

    /// The day of the week, counted from Monday; 1970-01-01 was a Thursday.
    pub open spec fn weekday_spec(self) -> int {
        (self.day() + 3) % 7
    }

    /// Nanoseconds since an earlier point. A leap second counts if it lies between
    /// the two times of day.
    pub open spec fn nanos_since(self, earlier: Instant) -> int {
        let leap = if self.second_of_day() > earlier.second_of_day() && earlier.nanos
            >= NANOS_PER_SECOND {
            1int
        } else if self.second_of_day() < earlier.second_of_day() && self.nanos
            >= NANOS_PER_SECOND {
            -1int
        } else {
            0int
        };
        (self.seconds - earlier.seconds + leap) * NANOS_PER_SECOND + (self.nanos - earlier.nanos)
    }

    /// Whole minutes since an earlier point, rounded toward zero.
    pub open spec fn minutes_since_spec(self, earlier: Instant) -> int {
        let minute = 60 * NANOS_PER_SECOND;
        let nanos = self.nanos_since(earlier);
        if nanos >= 0 {
            nanos / minute
        } else {
            -(-nanos / minute)
        }
    }
}

/// What `chrono::DateTime::parse_from_rfc3339` makes of a text: the point in time
/// that it reads, as seconds since 1970-01-01 00:00:00 UTC and nanoseconds, or the
/// text of its error.
pub uninterp spec fn instant_in(text: Seq<char>) -> Result<(i64, u32), Seq<char>>;

/// Reads an RFC 3339 date and time with `chrono::DateTime::parse_from_rfc3339`.
/// What is claimed of it: the text alone decides whether it is read, as which
/// point in time, and what the error says, and that point is a valid one.
#[verifier::external_body]
fn parse_rfc3339(text: &str) -> (result: Result<Instant, String>)
    ensures
        match result {
            Ok(instant) => instant.valid() && instant_in(text@) == Ok::<(i64, u32), Seq<char>>(
                (instant.seconds, instant.nanos),
            ),
            Err(error) => instant_in(text@) == Err::<(i64, u32), Seq<char>>(error@),
        },
{
    let time = chrono::DateTime::parse_from_rfc3339(text).map_err(|error| error.to_string())?;
    let time = time.with_timezone(&chrono::Utc);
    Ok(Instant { seconds: time.timestamp(), nanos: time.timestamp_subsec_nanos() })
}

impl Instant {
    /// Reads an RFC 3339 date and time.
    pub fn parse(text: &str) -> (result: Result<Instant, String>)
        ensures
            match result {
                Ok(instant) => instant.valid() && instant_in(text@)
                    == Ok::<(i64, u32), Seq<char>>((instant.seconds, instant.nanos)),
                Err(error) => instant_in(text@) == Err::<(i64, u32), Seq<char>>(error@),
            },
    {
        parse_rfc3339(text)
    }

    /// The hour of the day, given by `chrono::Timelike::hour`. What is claimed of
    /// it: it counts the whole hours since midnight in UTC.
    #[verifier::external_body]
    pub(crate) fn hour(&self) -> (hour: u32)
        requires
            self.valid(),
        ensures
            hour == self.hour_spec(),
    {
        chrono::DateTime::<chrono::Utc>::from_timestamp(self.seconds, self.nanos).unwrap().hour()
    }

    /// The day of the week, given by `chrono::Datelike::weekday` and
    /// `chrono::Weekday::num_days_from_monday`. What is claimed of it: Monday is
    /// zero, in the calendar in which 1970-01-01 is a Thursday.
    #[verifier::external_body]
    pub(crate) fn weekday(&self) -> (weekday: u32)
        requires
            self.valid(),
        ensures
            weekday == self.weekday_spec(),
    {
        chrono::DateTime::<chrono::Utc>::from_timestamp(
            self.seconds,
            self.nanos,
        ).unwrap().weekday().num_days_from_monday()
    }

    /// Whole minutes since an earlier point, given by
    /// `chrono::DateTime::signed_duration_since` and
    /// `chrono::TimeDelta::num_minutes`. What is claimed of it: the nanoseconds
    /// between the points, divided into minutes and rounded toward zero.
    #[verifier::external_body]
    pub(crate) fn minutes_since(&self, earlier: &Instant) -> (minutes: i64)
        requires
            self.valid(),
            earlier.valid(),
        ensures
            minutes == self.minutes_since_spec(*earlier),
    {
        let later = chrono::DateTime::<chrono::Utc>::from_timestamp(self.seconds, self.nanos);
        let earlier = chrono::DateTime::<chrono::Utc>::from_timestamp(
            earlier.seconds,
            earlier.nanos,
        );
        later.unwrap().signed_duration_since(earlier.unwrap()).num_minutes()
    }
}

/// The hour counts the hours since midnight, it is one later after an hour, and a
/// day starts at hour zero.
pub proof fn law_hours_go_round(at: Instant, later: Instant)
    requires
        later.seconds == at.seconds + 3600,
    ensures
        0 <= at.hour_spec() < 24,
        0 <= (at.seconds - 3600 * at.hour_spec()) % 86_400 < 3600,
        later.hour_spec() == (at.hour_spec() + 1) % 24,
        at.seconds % 86_400 == 0 ==> at.hour_spec() == 0,
{
}

/// The day of the week is the next one after a day and the same one within a day,
/// and 1970-01-01 was a Thursday.
pub proof fn law_weekdays_go_round(at: Instant, later: Instant)
    ensures
        0 <= at.weekday_spec() < 7,
        0 <= at.seconds < 86_400 ==> at.weekday_spec() == 3,
        later.seconds == at.seconds + 86_400 ==> later.weekday_spec() == (at.weekday_spec() + 1)
            % 7,
        at.seconds as int / 86_400 == later.seconds as int / 86_400 ==> at.weekday_spec()
            == later.weekday_spec(),
{
}

/// The minutes between two points are the whole minutes of the time between them,
/// they have the sign of that time, and the other way round they are opposite.
/// Neither point lies in a leap second here.
pub proof fn law_minutes_are_whole(at: Instant, earlier: Instant)
    requires
        at.nanos < 1_000_000_000,
        earlier.nanos < 1_000_000_000,
    ensures
        ({
            let minutes = at.minutes_since_spec(earlier);
            let between = 1_000_000_000 * (at.seconds - earlier.seconds) + at.nanos
                - earlier.nanos;
            &&& between >= 0 ==> 60_000_000_000 * minutes <= between < 60_000_000_000 * (minutes
                + 1)
            &&& between <= 0 ==> 60_000_000_000 * (minutes - 1) < between <= 60_000_000_000
                * minutes
            &&& earlier.minutes_since_spec(at) == -minutes
        }),
{
}

/// A leap second lengthens the time between two points by a second if it lies
/// between their times of day.
pub proof fn law_leap_seconds_count(at: Instant, earlier: Instant)
    ensures
        ({
            let clock = at.seconds as int % 86_400;
            let earlier_clock = earlier.seconds as int % 86_400;
            let plain = 1_000_000_000 * (at.seconds - earlier.seconds) + at.nanos - earlier.nanos;
            &&& at.nanos_since(earlier) == plain || at.nanos_since(earlier) == plain
                + 1_000_000_000 || at.nanos_since(earlier) == plain - 1_000_000_000
            &&& at.nanos_since(earlier) > plain <==> clock > earlier_clock && earlier.nanos
                >= 1_000_000_000
            &&& at.nanos_since(earlier) < plain <==> clock < earlier_clock && at.nanos
                >= 1_000_000_000
        }),
{
}

} // verus!
