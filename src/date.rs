use vstd::prelude::*;

verus! {

/// A calendar date, held as its day number: day 1 is 1 January of year 1 in
/// the proleptic Gregorian calendar, and consecutive days have consecutive
/// numbers.
#[derive(Clone, Copy, Debug, PartialEq, Eq, Structural)]
pub struct Date {
    pub days: i32,
}

/// The day number of a year, month and day, or `None` where there is no such
/// date.
pub uninterp spec fn day_number(year: int, month: int, day: int) -> Option<int>;

/// Whether the year of a day is a leap year, or `None` outside the calendar.
pub uninterp spec fn leap_year_of(days: int) -> Option<bool>;

/// The same day one month later (the last day of the month where the month is
/// shorter), or `None` outside the calendar.
pub uninterp spec fn month_after(days: int) -> Option<int>;

/// Relies on `chrono::NaiveDate::from_ymd_opt` and `Datelike::num_days_from_ce`.
#[verifier::external_body]
fn ymd_outside(year: i32, month: u32, day: u32) -> (r: Option<i32>)
    ensures
        r matches Some(d) ==> day_number(year as int, month as int, day as int) == Some(d as int),
        r is None ==> day_number(year as int, month as int, day as int) is None,
{
    chrono::NaiveDate::from_ymd_opt(year, month, day).map(
        |d| chrono::Datelike::num_days_from_ce(&d),
    )
}

/// Relies on `chrono::NaiveDate::from_num_days_from_ce_opt` and
/// `NaiveDate::leap_year`.
#[verifier::external_body]
fn leap_outside(days: i32) -> (r: Option<bool>)
    ensures
        r == leap_year_of(days as int),
{
    chrono::NaiveDate::from_num_days_from_ce_opt(days).map(|d| d.leap_year())
}

/// Relies on `chrono::NaiveDate::from_num_days_from_ce_opt`,
/// `NaiveDate::checked_add_months` with one month, and
/// `Datelike::num_days_from_ce`.
#[verifier::external_body]
fn month_outside(days: i32) -> (r: Option<i32>)
    ensures
        r matches Some(d) ==> month_after(days as int) == Some(d as int),
        r is None ==> month_after(days as int) is None,
{
    chrono::NaiveDate::from_num_days_from_ce_opt(days).and_then(
        |d| d.checked_add_months(chrono::Months::new(1)),
    ).map(|d| chrono::Datelike::num_days_from_ce(&d))
}

impl Date {
    /// The date with this year, month and day, if it exists.
    pub fn from_ymd(year: i32, month: u32, day: u32) -> (r: Option<Date>)
        ensures
            r matches Some(d) ==> day_number(year as int, month as int, day as int) == Some(
                d.days as int,
            ),
            r is None ==> day_number(year as int, month as int, day as int) is None,
    {
        match ymd_outside(year, month, day) {
            Some(days) => Some(Date { days }),
            None => None,
        }
    }

    /// Whether the date falls in a leap year; `None` outside the calendar.
    pub fn leap_year(&self) -> (r: Option<bool>)
        ensures
            r == leap_year_of(self.days as int),
    {
        leap_outside(self.days)
    }

    /// The next day; `None` past the largest day number.
    pub fn next_day(&self) -> (r: Option<Date>)
        ensures
            r matches Some(d) ==> d.days == self.days + 1,
            r is None ==> self.days == i32::MAX,
    {
        if self.days < i32::MAX {
            Some(Date { days: self.days + 1 })
        } else {
            None
        }
    }

    /// The same day one month later; `None` outside the calendar.
    pub fn add_month(&self) -> (r: Option<Date>)
        ensures
            r matches Some(d) ==> month_after(self.days as int) == Some(d.days as int),
            r is None ==> month_after(self.days as int) is None,
    {
        match month_outside(self.days) {
            Some(days) => Some(Date { days }),
            None => None,
        }
    }
}

} // verus!
