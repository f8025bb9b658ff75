use chrono::{Datelike, Days, NaiveDate};
use vstd::prelude::*;

verus! {

/// The earliest year a date can have.
pub const MIN_YEAR: i32 = -262143;

/// The latest year a date can have.
pub const MAX_YEAR: i32 = 262142;

/// Whether `year` has a 29th of February in the proleptic Gregorian calendar.
pub open spec fn is_leap_year(year: int) -> bool {
    year % 4 == 0 && (year % 100 != 0 || year % 400 == 0)
}

/// The number of days in `month` (1 to 12) of `year`.
pub open spec fn days_in_month(year: int, month: int) -> int {
    if month == 2 {
        if is_leap_year(year) {
            29
        } else {
            28
        }
    } else if month == 4 || month == 6 || month == 9 || month == 11 {
        30
    } else {
        31
    }
}

/// The number of days of `year` that lie before the first of `month`.
pub open spec fn days_before_month(year: int, month: int) -> int
    decreases month,
{
    if month <= 1 {
        0
    } else {
        days_before_month(year, month - 1) + days_in_month(year, month - 1)
    }
}

/// A day of the week.
#[derive(Clone, Copy, Debug, PartialEq, Eq, Hash, Structural)]
pub enum Weekday {
    Mon,
    Tue,
    Wed,
    Thu,
    Fri,
    Sat,
    Sun,
}

/// A day of the proleptic Gregorian calendar as year, month and day of month.
/// This is what a [`Date`] stands for in contracts.
pub struct CalendarDay {
    pub year: int,
    pub month: int,
    pub day: int,
}

impl CalendarDay {
    /// The day exists in the calendar and its year is within range.
    pub open spec fn is_valid(self) -> bool {
        &&& MIN_YEAR <= self.year <= MAX_YEAR
        &&& 1 <= self.month <= 12
        &&& 1 <= self.day <= days_in_month(self.year, self.month)
    }

    /// `self` is strictly earlier than `other`.
    pub open spec fn before(self, other: CalendarDay) -> bool {
        ||| self.year < other.year
        ||| self.year == other.year && self.month < other.month
        ||| self.year == other.year && self.month == other.month && self.day < other.day
    }

    /// The position of the day within its year, counted from 1.
    pub open spec fn day_of_year(self) -> int {
        days_before_month(self.year, self.month) + self.day
    }

    /// The day is the last one of the supported range.
    pub open spec fn is_last(self) -> bool {
        self.year == MAX_YEAR && self.month == 12 && self.day == 31
    }

    /// The day that follows `self` in the calendar.
    pub open spec fn next(self) -> CalendarDay {
        if self.day < days_in_month(self.year, self.month) {
            CalendarDay { year: self.year, month: self.month, day: self.day + 1 }
        } else if self.month < 12 {
            CalendarDay { year: self.year, month: self.month + 1, day: 1 }
        } else {
            CalendarDay { year: self.year + 1, month: 1, day: 1 }
        }
    }

    /// The day of the week on which the day falls.
    pub open spec fn weekday(self) -> Weekday {
        weekday_of(self.year, self.month, self.day)
    }
}

/// The day of the week of the calendar day `year`-`month`-`day`, as chrono computes it.
pub uninterp spec fn weekday_of(year: int, month: int, day: int) -> Weekday;

/// The day after a valid day other than the last is a valid day, and a later one.
pub proof fn lemma_next_day(d: CalendarDay)
    requires
        d.is_valid(),
        !d.is_last(),
    ensures
        d.next().is_valid(),
        d.before(d.next()),
        !d.next().before(d),
{
}

/// The position of a valid day within its year is between 1 and 366.
pub proof fn lemma_day_of_year_range(d: CalendarDay)
    requires
        d.is_valid(),
    ensures
        1 <= d.day_of_year() <= 366,
{
    reveal_with_fuel(days_before_month, 13);
}

/// Of two days, exactly one of these holds: the first is earlier, they are
/// the same day, the second is earlier.
pub proof fn lemma_before_is_total(a: CalendarDay, b: CalendarDay)
    ensures
        a.before(b) || a == b || b.before(a),
        !(a.before(b) && b.before(a)),
        !a.before(a),
{
}

/// `before` is transitive.
pub proof fn lemma_before_is_transitive(a: CalendarDay, b: CalendarDay, c: CalendarDay)
    requires
        a.before(b),
        b.before(c),
    ensures
        a.before(c),
{
}

/// Asks `NaiveDate::from_ymd_opt` whether the three numbers name a day. It
/// returns a date exactly for the days that exist in the calendar with a
/// year in chrono's range.
#[verifier::external_body]
fn calendar_has(year: i32, month: u32, day: u32) -> (r: bool)
    ensures
        r == (CalendarDay { year: year as int, month: month as int, day: day as int }).is_valid(),
{
    NaiveDate::from_ymd_opt(year, month, day).is_some()
}

/// Calls `Datelike::weekday` on the `NaiveDate` for the given day. The result
/// depends on the day alone and is named `weekday_of`.
#[verifier::external_body]
fn calendar_weekday(year: i32, month: u32, day: u32) -> (r: Weekday)
    requires
        (CalendarDay { year: year as int, month: month as int, day: day as int }).is_valid(),
    ensures
        r == weekday_of(year as int, month as int, day as int),
{
    match NaiveDate::from_ymd_opt(year, month, day).unwrap().weekday() {
        chrono::Weekday::Mon => Weekday::Mon,
        chrono::Weekday::Tue => Weekday::Tue,
        chrono::Weekday::Wed => Weekday::Wed,
        chrono::Weekday::Thu => Weekday::Thu,
        chrono::Weekday::Fri => Weekday::Fri,
        chrono::Weekday::Sat => Weekday::Sat,
        chrono::Weekday::Sun => Weekday::Sun,
    }
}

/// Calls `Datelike::ordinal` on the `NaiveDate` for the given day: the day of
/// the year counted from 1, that is the lengths of the months before it plus
/// the day of the month.
#[verifier::external_body]
fn calendar_ordinal(year: i32, month: u32, day: u32) -> (r: u32)
    requires
        (CalendarDay { year: year as int, month: month as int, day: day as int }).is_valid(),
    ensures
        r == (CalendarDay { year: year as int, month: month as int, day: day as int }).day_of_year(),
{
    NaiveDate::from_ymd_opt(year, month, day).unwrap().ordinal()
}

/// Calls `NaiveDate::checked_add_days` with one day: the following day of the
/// calendar, or nothing where that day's year would be out of chrono's range.
#[verifier::external_body]
fn calendar_successor(year: i32, month: u32, day: u32) -> (r: Option<(i32, u32, u32)>)
    requires
        (CalendarDay { year: year as int, month: month as int, day: day as int }).is_valid(),
    ensures
        ({
            let d = CalendarDay { year: year as int, month: month as int, day: day as int };
            match r {
                Some((y, m, n)) => !d.is_last() && d.next() == (CalendarDay {
                    year: y as int,
                    month: m as int,
                    day: n as int,
                }),
                None => d.is_last(),
            }
        }),
{
    NaiveDate::from_ymd_opt(year, month, day).unwrap().checked_add_days(Days::new(1)).map(
        |d| (d.year(), d.month(), d.day()),
    )
}

/// A calendar date without a time zone. Every value is a day that exists,
/// with a year from `MIN_YEAR` to `MAX_YEAR`.
#[derive(Clone, Copy, Debug, PartialEq, Eq, PartialOrd, Ord, Hash, Structural)]
pub struct Date {
    year: i32,
    month: u32,
    day: u32,
}

impl View for Date {
    type V = CalendarDay;

    closed spec fn view(&self) -> CalendarDay {
        CalendarDay { year: self.year as int, month: self.month as int, day: self.day as int }
    }
}

impl Date {
    /// Holds of every date that a program can hold.
    #[verifier::type_invariant]
    pub open spec fn exists_in_calendar(self) -> bool {
        self@.is_valid()
    }

    /// The date for a year, a month from 1 and a day of the month from 1, or
    /// `None` where the calendar has no such day or the year is out of range.
    pub fn from_ymd_opt(year: i32, month: u32, day: u32) -> (r: Option<Date>)
        ensures
            r is Some <==> (CalendarDay {
                year: year as int,
                month: month as int,
                day: day as int,
            }).is_valid(),
            r matches Some(d) ==> d@ == (CalendarDay {
                year: year as int,
                month: month as int,
                day: day as int,
            }),
    {
        if calendar_has(year, month, day) {
            Some(Date { year, month, day })
        } else {
            None
        }
    }

    /// The year of the date.
    pub fn year(&self) -> (r: i32)
        ensures
            r == self@.year,
    {
        self.year
    }

    /// The month of the date, from 1 to 12.
    pub fn month(&self) -> (r: u32)
        ensures
            r == self@.month,
    {
        self.month
    }

    /// The day of the month, from 1.
    pub fn day(&self) -> (r: u32)
        ensures
            r == self@.day,
    {
        self.day
    }

    /// The day of the year, from 1.
    pub fn ordinal(&self) -> (r: u32)
        ensures
            r == self@.day_of_year(),
            1 <= r <= 366,
    {
        proof {
            use_type_invariant(self);
            lemma_day_of_year_range(self@);
        }
        calendar_ordinal(self.year, self.month, self.day)
    }

    /// The day of the week.
    pub fn weekday(&self) -> (r: Weekday)
        ensures
            r == self@.weekday(),
    {
        proof {
            use_type_invariant(self);
        }
        calendar_weekday(self.year, self.month, self.day)
    }

    /// The following day, or `None` for the last day of the supported range.
    pub fn succ_opt(&self) -> (r: Option<Date>)
        ensures
            r is None <==> self@.is_last(),
            r matches Some(d) ==> d@ == self@.next() && self@.before(d@),
    {
        proof {
            use_type_invariant(self);
        }
        match calendar_successor(self.year, self.month, self.day) {
            Some((year, month, day)) => {
                proof {
                    lemma_next_day(self@);
                }
                Some(Date { year, month, day })
            },
            None => None,
        }
    }

    /// Whether `self` is strictly earlier than `other`.
    pub fn is_before(&self, other: &Date) -> (r: bool)
        ensures
            r == self@.before(other@),
    {
        self.year < other.year || (self.year == other.year && (self.month < other.month || (
        self.month == other.month && self.day < other.day)))
    }

    /// Two dates with the same year, month and day are the same date.
    pub proof fn lemma_view_is_injective(a: Date, b: Date)
        requires
            a@ == b@,
        ensures
            a == b,
    {
    }
}

impl Default for Date {
    /// The first of January 1970.
    fn default() -> (r: Date)
        ensures
            r@ == (CalendarDay { year: 1970, month: 1, day: 1 }),
    {
        Date { year: 1970, month: 1, day: 1 }
    }
}

} // verus!
