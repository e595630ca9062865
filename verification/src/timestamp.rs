//! Civil date and time, as the worker stamps it on rows and runs.

use vstd::prelude::*;

use crate::text::zero_padded;

verus! {

/// Whether a year of the proleptic Gregorian calendar is a leap year.
pub open spec fn is_leap_year(year: int) -> bool {
    year % 4 == 0 && (year % 100 != 0 || year % 400 == 0)
}

/// The number of days of a month; zero for a month that does not exist.
pub open spec fn days_in_month(year: int, month: int) -> int {
    if month == 2 {
        if is_leap_year(year) {
            29
        } else {
            28
        }
    } else if month == 4 || month == 6 || month == 9 || month == 11 {
        30
    } else if 1 <= month <= 12 {
        31
    } else {
        0
    }
}

/// Whether the fields are a date of the calendar and a time of the day, in
/// a year that is written with four digits, and without a leap second.
pub open spec fn is_civil_time(
    year: int,
    month: int,
    day: int,
    hour: int,
    minute: int,
    second: int,
    nanosecond: int,
) -> bool {
    &&& 0 <= year <= 9999
    &&& 1 <= month <= 12
    &&& 1 <= day <= days_in_month(year, month)
    &&& 0 <= hour < 24
    &&& 0 <= minute < 60
    &&& 0 <= second < 60
    &&& 0 <= nanosecond < 1_000_000_000
}

/// A date and a time to the second as fourteen digits: the year with four
/// digits, then month, day, hour, minute and second with two digits each,
/// zero-padded.
pub open spec fn civil_compact(
    year: int,
    month: int,
    day: int,
    hour: int,
    minute: int,
    second: int,
) -> Seq<char> {
    zero_padded(year as nat, 4) + zero_padded(month as nat, 2) + zero_padded(day as nat, 2)
        + zero_padded(hour as nat, 2) + zero_padded(minute as nat, 2) + zero_padded(
        second as nat,
        2,
    )
}

/// A civil date and time without a zone.
#[derive(Debug, Clone, Copy, PartialEq, Eq, Structural)]
pub struct Timestamp {
    year: i32,
    month: u32,
    day: u32,
    hour: u32,
    minute: u32,
    second: u32,
    nanosecond: u32,
}

/// The mathematical value of a timestamp: its fields.
pub struct TimestampView {
    pub year: int,
    pub month: int,
    pub day: int,
    pub hour: int,
    pub minute: int,
    pub second: int,
    pub nanosecond: int,
}

impl TimestampView {
    /// Whether the fields are a civil time.
    pub open spec fn valid(self) -> bool {
        is_civil_time(
            self.year,
            self.month,
            self.day,
            self.hour,
            self.minute,
            self.second,
            self.nanosecond,
        )
    }

    /// The date and time to the second as fourteen digits: year, month, day,
    /// hour, minute, second.
    pub open spec fn compact(self) -> Seq<char> {
        civil_compact(self.year, self.month, self.day, self.hour, self.minute, self.second)
    }

    /// The milliseconds within the second.
    pub open spec fn millisecond(self) -> int {
        self.nanosecond / 1_000_000
    }

    /// The same time with the fraction of the second dropped.
    pub open spec fn truncated(self) -> TimestampView {
        TimestampView { nanosecond: 0, ..self }
    }

    /// Whether this time comes before the other.
    pub open spec fn before(self, other: TimestampView) -> bool {
        self.order_key() < other.order_key()
    }

    /// A number that grows with the time: the later of two times has the
    /// larger number.
    pub open spec fn order_key(self) -> int {
        (((((self.year * 13 + self.month) * 32 + self.day) * 24 + self.hour) * 60 + self.minute)
            * 60 + self.second) * 1_000_000_000 + self.nanosecond
    }
}

impl View for Timestamp {
    type V = TimestampView;

    closed spec fn view(&self) -> TimestampView {
        TimestampView {
            year: self.year as int,
            month: self.month as int,
            day: self.day as int,
            hour: self.hour as int,
            minute: self.minute as int,
            second: self.second as int,
            nanosecond: self.nanosecond as int,
        }
    }
}

/// The number of days of a month.
fn month_length(year: i32, month: u32) -> (days: u32)
    requires
        0 <= year <= 9999,
    ensures
        days == days_in_month(year as int, month as int),
{
    if month == 2 {
        if year % 4 == 0 && (year % 100 != 0 || year % 400 == 0) {
            29
        } else {
            28
        }
    } else if month == 4 || month == 6 || month == 9 || month == 11 {
        30
    } else if 1 <= month && month <= 12 {
        31
    } else {
        0
    }
}

/// `chrono::NaiveDate::from_ymd_opt`, `NaiveDate::and_hms_nano_opt` and
/// `NaiveDateTime::format` with `%Y%m%d%H%M%S`: for a date of the calendar
/// in a year from 0 to 9999 and a time of the day without a leap second,
/// chrono accepts the fields and writes the year with four digits and each
/// of month, day, hour, minute and second with two, zero-padded.
#[verifier::external_body]
fn chrono_compact(
    year: i32,
    month: u32,
    day: u32,
    hour: u32,
    minute: u32,
    second: u32,
    nanosecond: u32,
) -> (text: Option<String>)
    requires
        is_civil_time(
            year as int,
            month as int,
            day as int,
            hour as int,
            minute as int,
            second as int,
            nanosecond as int,
        ),
    ensures
        text is Some,
        text->0@ == civil_compact(
            year as int,
            month as int,
            day as int,
            hour as int,
            minute as int,
            second as int,
        ),
{
    chrono::NaiveDate::from_ymd_opt(year, month, day).and_then(
        |date| date.and_hms_nano_opt(hour, minute, second, nanosecond),
    ).map(|time| time.format("%Y%m%d%H%M%S").to_string())
}

impl Timestamp {
    #[verifier::type_invariant]
    spec fn well_formed(&self) -> bool {
        is_civil_time(
            self.year as int,
            self.month as int,
            self.day as int,
            self.hour as int,
            self.minute as int,
            self.second as int,
            self.nanosecond as int,
        )
    }

    /// The timestamp with the given fields, where they are a civil time.
    pub fn new(
        year: i32,
        month: u32,
        day: u32,
        hour: u32,
        minute: u32,
        second: u32,
        nanosecond: u32,
    ) -> (made: Option<Timestamp>)
        ensures
            made is Some <==> is_civil_time(
                year as int,
                month as int,
                day as int,
                hour as int,
                minute as int,
                second as int,
                nanosecond as int,
            ),
            made matches Some(ts) ==> ts@ == (TimestampView {
                year: year as int,
                month: month as int,
                day: day as int,
                hour: hour as int,
                minute: minute as int,
                second: second as int,
                nanosecond: nanosecond as int,
            }) && ts@.valid(),
    {
        if 0 <= year && year <= 9999 && 1 <= month && month <= 12 && 1 <= day && day
            <= month_length(year, month) && hour < 24 && minute < 60 && second < 60 && nanosecond
            < 1_000_000_000 {
            Some(Timestamp { year, month, day, hour, minute, second, nanosecond })
        } else {
            None
        }
    }

    /// The timestamp with the given fields and milliseconds, where they are
    /// a civil time.
    pub fn from_ymd_hms_milli(
        year: i32,
        month: u32,
        day: u32,
        hour: u32,
        minute: u32,
        second: u32,
        millisecond: u32,
    ) -> (made: Option<Timestamp>)
        ensures
            made is Some <==> millisecond < 1000 && is_civil_time(
                year as int,
                month as int,
                day as int,
                hour as int,
                minute as int,
                second as int,
                millisecond * 1_000_000,
            ),
            made matches Some(ts) ==> ts@ == (TimestampView {
                year: year as int,
                month: month as int,
                day: day as int,
                hour: hour as int,
                minute: minute as int,
                second: second as int,
                nanosecond: millisecond * 1_000_000,
            }) && ts@.valid(),
    {
        if millisecond < 1000 {
            Timestamp::new(year, month, day, hour, minute, second, millisecond * 1_000_000)
        } else {
            None
        }
    }

    /// Every timestamp is a civil time: a call of this function tells the
    /// verifier so, and does nothing else.
    pub fn note_valid(&self)
        ensures
            self@.valid(),
    {
        proof {
            use_type_invariant(self);
        }
    }

    pub fn year(&self) -> (year: i32)
        ensures
            year == self@.year,
    {
        self.year
    }

    pub fn month(&self) -> (month: u32)
        ensures
            month == self@.month,
    {
        self.month
    }

    pub fn day(&self) -> (day: u32)
        ensures
            day == self@.day,
    {
        self.day
    }

    pub fn hour(&self) -> (hour: u32)
        ensures
            hour == self@.hour,
    {
        self.hour
    }

    pub fn minute(&self) -> (minute: u32)
        ensures
            minute == self@.minute,
    {
        self.minute
    }

    pub fn second(&self) -> (second: u32)
        ensures
            second == self@.second,
    {
        self.second
    }

    pub fn nanosecond(&self) -> (nanosecond: u32)
        ensures
            nanosecond == self@.nanosecond,
    {
        self.nanosecond
    }

    /// The milliseconds within the second.
    pub fn millisecond(&self) -> (millisecond: u32)
        ensures
            millisecond == self@.millisecond(),
            millisecond < 1000,
    {
        proof {
            use_type_invariant(self);
        }
        self.nanosecond / 1_000_000
    }

    /// The same time with the fraction of the second dropped.
    pub fn truncate_to_seconds(&self) -> (truncated: Timestamp)
        ensures
            truncated@ == self@.truncated(),
    {
        proof {
            use_type_invariant(self);
        }
        Timestamp { nanosecond: 0, ..*self }
    }

    /// The date and time to the second as fourteen digits.
    pub fn compact(&self) -> (text: String)
        ensures
            text@ == self@.compact(),
    {
        proof {
            use_type_invariant(self);
        }
        match chrono_compact(
            self.year,
            self.month,
            self.day,
            self.hour,
            self.minute,
            self.second,
            self.nanosecond,
        ) {
            Some(text) => text,
            None => String::new(),
        }
    }

    /// Whether this time is the same as the other.
    pub fn is_same(&self, other: &Timestamp) -> (same: bool)
        ensures
            same == (self@ == other@),
    {
        self.year == other.year && self.month == other.month && self.day == other.day
            && self.hour == other.hour && self.minute == other.minute && self.second
            == other.second && self.nanosecond == other.nanosecond
    }

    /// Whether this time comes before the other.
    pub fn is_before(&self, other: &Timestamp) -> (before: bool)
        ensures
            before == self@.before(other@),
    {
        proof {
            use_type_invariant(self);
            use_type_invariant(other);
        }
        if self.year != other.year {
            self.year < other.year
        } else if self.month != other.month {
            self.month < other.month
        } else if self.day != other.day {
            self.day < other.day
        } else if self.hour != other.hour {
            self.hour < other.hour
        } else if self.minute != other.minute {
            self.minute < other.minute
        } else if self.second != other.second {
            self.second < other.second
        } else {
            self.nanosecond < other.nanosecond
        }
    }
}

} // verus!
