use vstd::prelude::*;

verus! {

/// Leap years of the proleptic Gregorian calendar.
pub open spec fn is_leap_year(year: int) -> bool {
    year % 4 == 0 && (year % 100 != 0 || year % 400 == 0)
}

/// Days in `month` (1 to 12) of `year`.
pub open spec fn days_in_month(year: int, month: int) -> int {
    if month == 2 {
        if is_leap_year(year) {
            29
        } else {
            28
        }
    } else if month == 4 || month == 6 || month == 9 || month == 11 {
        30
    } else {
        31
    }
}

/// A day of the proleptic Gregorian calendar, with a four-digit year.
pub open spec fn is_calendar_date(year: int, month: int, day: int) -> bool {
    &&& -9999 <= year <= 9999
    &&& 1 <= month <= 12
    &&& 1 <= day <= days_in_month(year, month)
}

/// A time of day to the second.
pub open spec fn is_time_of_day(hour: int, minute: int, second: int) -> bool {
    hour < 24 && minute < 60 && second < 60
}

/// Relies on time's `Month::try_from(u8)`, which takes 1 to 12 to the months
/// and fails on any other number, and on `Date::from_calendar_date`, which
/// (without the crate's large-dates feature) accepts years -9999 to 9999 and
/// a day from 1 to the length of that month in the proleptic Gregorian
/// calendar.
#[verifier::external_body]
fn calendar_date_is_valid(year: u16, month: u8, day: u8) -> (r: bool)
    ensures
        r == is_calendar_date(year as int, month as int, day as int),
{
    match time::Month::try_from(month) {
        Ok(month) => time::Date::from_calendar_date(year as i32, month, day).is_ok(),
        Err(_) => false,
    }
}

/// Relies on time's `Time::from_hms`, which accepts hours below 24 and
/// minutes and seconds below 60.
#[verifier::external_body]
fn time_of_day_is_valid(hour: u8, minute: u8, second: u8) -> (r: bool)
    ensures
        r == is_time_of_day(hour as int, minute as int, second as int),
{
    time::Time::from_hms(hour, minute, second).is_ok()
}

/// The reference time of the data, as recorded in the file.
#[derive(Clone, Copy, Debug, PartialEq, Eq)]
pub struct ReferenceTime {
    pub year: u16,
    pub month: u8,
    pub day: u8,
    pub hour: u8,
    pub minute: u8,
    pub second: u8,
}

impl ReferenceTime {
    /// A calendar date and a time of day.
    pub open spec fn spec_is_valid(&self) -> bool {
        is_calendar_date(self.year as int, self.month as int, self.day as int) && is_time_of_day(
            self.hour as int,
            self.minute as int,
            self.second as int,
        )
    }

    /// Tells whether the fields name an existing instant.
    pub fn is_valid(&self) -> (r: bool)
        ensures
            r == self.spec_is_valid(),
    {
        calendar_date_is_valid(self.year, self.month, self.day) && time_of_day_is_valid(
            self.hour,
            self.minute,
            self.second,
        )
    }
}

} // verus!
