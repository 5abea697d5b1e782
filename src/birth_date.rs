//! Calendar dates of birth, checked against chrono's calendar.
use vstd::prelude::*;

verus! {

/// Smallest year that chrono's `NaiveDate` can hold.
pub const MIN_YEAR: i32 = -262143;

/// Largest year that chrono's `NaiveDate` can hold.
pub const MAX_YEAR: i32 = 262142;

/// Leap years of the proleptic Gregorian calendar.
pub open spec fn is_leap_year(y: int) -> bool {
    (y % 4 == 0 && y % 100 != 0) || y % 400 == 0
}

pub open spec fn days_in_month(y: int, m: int) -> int {
    if m == 2 {
        if is_leap_year(y) { 29 } else { 28 }
    } else if m == 4 || m == 6 || m == 9 || m == 11 {
        30
    } else {
        31
    }
}

/// The day `d` of month `m` of year `y` exists, and the year lies in the
/// range that chrono supports.
pub open spec fn date_exists(y: int, m: int, d: int) -> bool {
    &&& MIN_YEAR <= y <= MAX_YEAR
    &&& 1 <= m <= 12
    &&& 1 <= d <= days_in_month(y, m)
}

/// Relies on chrono::NaiveDate::from_ymd_opt: it returns `Some` exactly when
/// the year is within chrono's range and the month and day name a day of the
/// proleptic Gregorian calendar.
#[verifier::external_body]
fn calendar_date_exists(year: i32, month: u32, day: u32) -> (r: bool)
    ensures
        r == date_exists(year as int, month as int, day as int),
{
    chrono::NaiveDate::from_ymd_opt(year, month, day).is_some()
}

/// A date of birth: year, month and day of an existing calendar day.
pub struct BirthDate {
    year: i32,
    month: u32,
    day: u32,
}

impl View for BirthDate {
    type V = (int, int, int);

    closed spec fn view(&self) -> (int, int, int) {
        (self.year as int, self.month as int, self.day as int)
    }
}

impl BirthDate {
    #[verifier::type_invariant]
    spec fn inv(&self) -> bool {
        date_exists(self.year as int, self.month as int, self.day as int)
    }

    /// The date with the given year, month and day, or `None` where no such
    /// day exists.
    pub fn from_ymd_opt(year: i32, month: u32, day: u32) -> (r: Option<BirthDate>)
        ensures
            r is Some <==> date_exists(year as int, month as int, day as int),
            r matches Some(d) ==> d@ == (year as int, month as int, day as int),
    {
        if calendar_date_exists(year, month, day) {
            Some(BirthDate { year, month, day })
        } else {
            None
        }
    }

    pub fn year(&self) -> (r: i32)
        ensures
            r as int == self@.0,
            date_exists(self@.0, self@.1, self@.2),
    {
        proof {
            use_type_invariant(self);
        }
        self.year
    }

    pub fn month(&self) -> (r: u32)
        ensures
            r as int == self@.1,
    {
        self.month
    }

    pub fn day(&self) -> (r: u32)
        ensures
            r as int == self@.2,
    {
        self.day
    }
}

} // verus!
