//! Calendar dates in the proleptic Gregorian calendar, as the dashboard uses them.
//!
//! A `Date` holds its year, month and day as plain numbers. Arithmetic on dates is
//! done by `chrono`; the contracts of those calls are stated over the spec
//! functions of this module.
use vstd::prelude::*;

use chrono::{Datelike, Days, Local, Months, NaiveDate};

verus! {

/// The earliest year that `chrono::NaiveDate` represents.
pub const MIN_YEAR: i32 = -262143;

/// The latest year that `chrono::NaiveDate` represents.
pub const MAX_YEAR: i32 = 262142;

/// A calendar date.
#[derive(Clone, Copy, Debug, PartialEq, Eq, Structural)]
pub struct Date {
    pub year: i32,
    pub month: u32,
    pub day: u32,
}

/// Whether `year` is a leap year of the Gregorian calendar.
pub open spec fn is_leap_year(year: int) -> bool {
    year % 4 == 0 && (year % 100 != 0 || year % 400 == 0)
}

/// The number of days of `month` (1 to 12) in `year`.
pub open spec fn month_length(year: int, month: int) -> int {
    if month == 2 {
        if is_leap_year(year) {
            29
        } else {
            28
        }
    } else if month == 4 || month == 6 || month == 9 || month == 11 {
        30
    } else {
        31
    }
}

/// Whether the numbers name a date that `chrono::NaiveDate` can hold.
pub open spec fn valid_ymd(year: int, month: int, day: int) -> bool {
    &&& MIN_YEAR <= year <= MAX_YEAR
    &&& 1 <= month <= 12
    &&& 1 <= day <= month_length(year, month)
}

/// A number that orders dates chronologically.
pub open spec fn date_key(date: Date) -> int {
    date.year * 512 + date.month * 32 + date.day
}

/// The day after `date`, without a bound on the year.
pub open spec fn next_day(date: Date) -> Date {
    if date.day < month_length(date.year as int, date.month as int) {
        Date { day: (date.day + 1) as u32, ..date }
    } else if date.month < 12 {
        Date { month: (date.month + 1) as u32, day: 1, ..date }
    } else {
        Date { year: (date.year + 1) as i32, month: 1, day: 1 }
    }
}

/// The day before `date`, without a bound on the year.
pub open spec fn previous_day(date: Date) -> Date {
    if date.day > 1 {
        Date { day: (date.day - 1) as u32, ..date }
    } else if date.month > 1 {
        Date {
            month: (date.month - 1) as u32,
            day: month_length(date.year as int, date.month - 1) as u32,
            ..date
        }
    } else {
        Date { year: (date.year - 1) as i32, month: 12, day: 31 }
    }
}

/// The date `offset` days after `date` (before it for a negative offset), or `None`
/// when a date on the way leaves the range of `chrono::NaiveDate`.
pub open spec fn shift_days(date: Date, offset: int) -> Option<Date>
    decreases (if offset < 0 { -offset } else { offset }),
{
    if offset == 0 {
        Some(date)
    } else if offset > 0 {
        let next = next_day(date);
        if next.is_valid() {
            shift_days(next, offset - 1)
        } else {
            None
        }
    } else {
        let previous = previous_day(date);
        if previous.is_valid() {
            shift_days(previous, offset + 1)
        } else {
            None
        }
    }
}

/// The date one month after `date`, clamping the day to the length of that month.
pub open spec fn month_after(date: Date) -> Option<Date> {
    let year = if date.month == 12 { date.year + 1 } else { date.year as int };
    let month = if date.month == 12 { 1 } else { date.month + 1 };
    let day = if date.day <= month_length(year, month) { date.day as int } else { month_length(year, month) };
    if valid_ymd(year, month, day) {
        Some(Date { year: year as i32, month: month as u32, day: day as u32 })
    } else {
        None
    }
}

/// The date one month before `date`, clamping the day to the length of that month.
pub open spec fn month_before(date: Date) -> Option<Date> {
    let year = if date.month == 1 { date.year - 1 } else { date.year as int };
    let month = if date.month == 1 { 12 } else { date.month - 1 };
    let day = if date.day <= month_length(year, month) { date.day as int } else { month_length(year, month) };
    if valid_ymd(year, month, day) {
        Some(Date { year: year as i32, month: month as u32, day: day as u32 })
    } else {
        None
    }
}

impl Date {
    /// Whether the date exists and lies in the range of `chrono::NaiveDate`.
    pub open spec fn is_valid(self) -> bool {
        valid_ymd(self.year as int, self.month as int, self.day as int)
    }

    /// Whether `self` falls in the same month of the same year as `other`.
    pub open spec fn same_month(self, other: Date) -> bool {
        self.year == other.year && self.month == other.month
    }

    /// Makes the date `year`-`month`-`day`, or `None` where no such date exists.
    pub fn from_ymd(year: i32, month: u32, day: u32) -> (date: Option<Date>)
        ensures
            date is Some <==> valid_ymd(year as int, month as int, day as int),
            date matches Some(d) ==> d == (Date { year, month, day }),
    {
        chrono_from_ymd(year, month, day)
    }

    /// A number that orders dates chronologically.
    pub fn key(&self) -> (key: i64)
        requires
            self.is_valid(),
        ensures
            key == date_key(*self),
    {
        self.year as i64 * 512 + self.month as i64 * 32 + self.day as i64
    }

    /// The first day of the month that holds `self`.
    pub fn first_of_month(&self) -> (first: Date)
        requires
            self.is_valid(),
        ensures
            first == (Date { day: 1, ..*self }),
            first.is_valid(),
    {
        match chrono_with_day(*self, 1) {
            Some(first) => first,
            None => *self,
        }
    }

    /// The date `days` days later, or `None` outside the range of `chrono::NaiveDate`.
    pub fn add_days(&self, days: u64) -> (later: Option<Date>)
        requires
            self.is_valid(),
        ensures
            later == shift_days(*self, days as int),
            later matches Some(d) ==> d.is_valid(),
    {
        proof {
            lemma_shift_days_valid(*self, days as int);
        }
        chrono_add_days(*self, days)
    }

    /// The date `days` days earlier, or `None` outside the range of `chrono::NaiveDate`.
    pub fn sub_days(&self, days: u64) -> (earlier: Option<Date>)
        requires
            self.is_valid(),
        ensures
            earlier == shift_days(*self, -(days as int)),
            earlier matches Some(d) ==> d.is_valid(),
    {
        proof {
            lemma_shift_days_valid(*self, -(days as int));
        }
        chrono_sub_days(*self, days)
    }

    /// The same day of the month one month later, clamped to the length of that month.
    pub fn next_month(&self) -> (later: Option<Date>)
        requires
            self.is_valid(),
        ensures
            later == month_after(*self),
    {
        chrono_add_month(*self)
    }

    /// The same day of the month one month earlier, clamped to the length of that month.
    pub fn previous_month(&self) -> (earlier: Option<Date>)
        requires
            self.is_valid(),
        ensures
            earlier == month_before(*self),
    {
        chrono_sub_month(*self)
    }

    /// The same month with the day of the month changed, or `None` where that day does not exist.
    pub fn with_day(&self, day: u32) -> (changed: Option<Date>)
        requires
            self.is_valid(),
        ensures
            changed is Some <==> valid_ymd(self.year as int, self.month as int, day as int),
            changed matches Some(d) ==> d == (Date { day, ..*self }),
    {
        chrono_with_day(*self, day)
    }
}

/// Every date that `shift_days` yields is valid.
pub proof fn lemma_shift_days_valid(date: Date, offset: int)
    requires
        date.is_valid(),
    ensures
        shift_days(date, offset) matches Some(d) ==> d.is_valid(),
    decreases (if offset < 0 { -offset } else { offset }),
{
    if offset > 0 {
        if next_day(date).is_valid() {
            lemma_shift_days_valid(next_day(date), offset - 1);
        }
    } else if offset < 0 {
        if previous_day(date).is_valid() {
            lemma_shift_days_valid(previous_day(date), offset + 1);
        }
    }
}

/// The day after a date is later in the order of `date_key`, and the day before is earlier.
pub proof fn lemma_neighbour_keys(date: Date)
    requires
        date.is_valid(),
    ensures
        date_key(next_day(date)) > date_key(date),
        date_key(previous_day(date)) < date_key(date),
{
}

/// Moving forward never yields an earlier date, and moving back never a later one.
pub proof fn lemma_shift_days_order(date: Date, offset: int)
    requires
        date.is_valid(),
    ensures
        shift_days(date, offset) matches Some(d) ==> (offset >= 0 ==> date_key(d) >= date_key(date))
            && (offset <= 0 ==> date_key(d) <= date_key(date)),
    decreases (if offset < 0 { -offset } else { offset }),
{
    lemma_neighbour_keys(date);
    if offset > 0 {
        if next_day(date).is_valid() {
            lemma_shift_days_order(next_day(date), offset - 1);
        }
    } else if offset < 0 {
        if previous_day(date).is_valid() {
            lemma_shift_days_order(previous_day(date), offset + 1);
        }
    }
}

/// Going back `first + second` days is going back `first` days and then `second` more.
pub proof fn lemma_shift_days_back_in_two(date: Date, first: nat, second: nat)
    ensures
        shift_days(date, -(first + second)) == (match shift_days(date, -first) {
            Some(middle) => shift_days(middle, -second),
            None => None,
        }),
    decreases first,
{
    if first > 0 {
        let previous = previous_day(date);
        if previous.is_valid() {
            lemma_shift_days_back_in_two(previous, (first - 1) as nat, second);
            assert(-(first + second) + 1 == -(((first - 1) as nat) + second));
        }
    }
}

/// Going back `k` days from a valid date stays in its month, on day `day - k`, while `k`
/// is below the day; from there on it lands before the first of the month.
pub proof fn lemma_shift_back_in_month(date: Date, k: nat)
    requires
        date.is_valid(),
    ensures
        k < date.day ==> shift_days(date, -k) == Some(Date { day: (date.day - k) as u32, ..date }),
        k >= date.day ==> (shift_days(date, -k) matches Some(c) ==> date_key(c) < date_key(Date { day: 1, ..date })),
    decreases k,
{
    if k > 0 {
        let j = (k - 1) as nat;
        lemma_shift_back_in_month(date, j);
        lemma_shift_days_back_in_two(date, j, 1);
        assert(-(j + 1) == -k);
        if let Some(m) = shift_days(date, -j) {
            lemma_shift_days_valid(date, -j);
            lemma_neighbour_keys(m);
            assert(shift_days(m, -1) == (if previous_day(m).is_valid() { shift_days(previous_day(m), 0) } else { None }));
        }
    }
}

/// Going forward `k` days from a valid date stays in its month, on day `day + k`, while
/// that day exists; from there on it lands after the last day of the month.
pub proof fn lemma_shift_forward_in_month(date: Date, k: nat)
    requires
        date.is_valid(),
    ensures
        date.day + k <= month_length(date.year as int, date.month as int) ==> shift_days(date, k as int) == Some(
            Date { day: (date.day + k) as u32, ..date },
        ),
        date.day + k > month_length(date.year as int, date.month as int) ==> (shift_days(date, k as int) matches Some(c)
            ==> date_key(c) > date_key(Date { day: month_length(date.year as int, date.month as int) as u32, ..date })),
    decreases k,
{
    if k > 0 {
        let j = (k - 1) as nat;
        lemma_shift_forward_in_month(date, j);
        lemma_shift_days_forward_in_two(date, j, 1);
        if let Some(m) = shift_days(date, j as int) {
            lemma_shift_days_valid(date, j as int);
            lemma_neighbour_keys(m);
            assert(shift_days(m, 1) == (if next_day(m).is_valid() { shift_days(next_day(m), 0) } else { None }));
        }
    }
}

/// Going forward `first + second` days is going forward `first` days and then `second` more.
pub proof fn lemma_shift_days_forward_in_two(date: Date, first: nat, second: nat)
    ensures
        shift_days(date, (first + second) as int) == (match shift_days(date, first as int) {
            Some(middle) => shift_days(middle, second as int),
            None => None,
        }),
    decreases first,
{
    if first > 0 {
        let next = next_day(date);
        if next.is_valid() {
            lemma_shift_days_forward_in_two(next, (first - 1) as nat, second);
        }
    }
}

/// Two valid dates with the same key are the same date.
pub proof fn lemma_date_key_injective(a: Date, b: Date)
    requires
        a.is_valid(),
        b.is_valid(),
        date_key(a) == date_key(b),
    ensures
        a == b,
{
}

/// The number of days in the month that holds `month`.
///
/// Computed from the calendar: the first of the following month, one day back.
pub fn days_in_month(month: Date) -> (days: u32)
    requires
        month.is_valid(),
        !(month.year == MAX_YEAR && month.month == 12),
    ensures
        days == month_length(month.year as int, month.month as int),
{
    let first = month.first_of_month();
    let following = first.next_month();
    match following {
        Some(next) => {
            let last = next.sub_days(1);
            proof {
                reveal_with_fuel(shift_days, 2);
            }
            match last {
                Some(day) => day.day,
                None => 31,
            }
        },
        None => 31,
    }
}

/// Calls `chrono::NaiveDate::from_ymd_opt`. Claims that it succeeds exactly on the
/// dates of the proleptic Gregorian calendar in chrono's year range, and keeps the
/// numbers it was given.
#[verifier::external_body]
fn chrono_from_ymd(year: i32, month: u32, day: u32) -> (date: Option<Date>)
    ensures
        date is Some <==> valid_ymd(year as int, month as int, day as int),
        date matches Some(d) ==> d == (Date { year, month, day }),
{
    match NaiveDate::from_ymd_opt(year, month, day) {
        Some(d) => Some(Date { year: d.year(), month: d.month(), day: d.day() }),
        None => None,
    }
}

/// Calls `chrono::Datelike::with_day` on a `NaiveDate`. Claims that it succeeds exactly
/// when the day exists in that month, and changes nothing else.
#[verifier::external_body]
fn chrono_with_day(date: Date, day: u32) -> (changed: Option<Date>)
    requires
        date.is_valid(),
    ensures
        changed is Some <==> valid_ymd(date.year as int, date.month as int, day as int),
        changed matches Some(d) ==> d == (Date { day, ..date }),
{
    match NaiveDate::from_ymd_opt(date.year, date.month, date.day).unwrap().with_day(day) {
        Some(d) => Some(Date { year: d.year(), month: d.month(), day: d.day() }),
        None => None,
    }
}

/// Calls `chrono::NaiveDate::checked_add_days`. Claims that it yields the date that many
/// days later, or `None` when that date is outside chrono's range.
#[verifier::external_body]
fn chrono_add_days(date: Date, days: u64) -> (later: Option<Date>)
    requires
        date.is_valid(),
    ensures
        later == shift_days(date, days as int),
{
    match NaiveDate::from_ymd_opt(date.year, date.month, date.day).unwrap().checked_add_days(
        Days::new(days),
    ) {
        Some(d) => Some(Date { year: d.year(), month: d.month(), day: d.day() }),
        None => None,
    }
}

/// Calls `chrono::NaiveDate::checked_sub_days`. Claims that it yields the date that many
/// days earlier, or `None` when that date is outside chrono's range.
#[verifier::external_body]
fn chrono_sub_days(date: Date, days: u64) -> (earlier: Option<Date>)
    requires
        date.is_valid(),
    ensures
        earlier == shift_days(date, -(days as int)),
{
    match NaiveDate::from_ymd_opt(date.year, date.month, date.day).unwrap().checked_sub_days(
        Days::new(days),
    ) {
        Some(d) => Some(Date { year: d.year(), month: d.month(), day: d.day() }),
        None => None,
    }
}

/// Calls `chrono::NaiveDate::checked_add_months` with one month. Claims the documented
/// result: the next month, the day clamped to its length, `None` out of range.
#[verifier::external_body]
fn chrono_add_month(date: Date) -> (later: Option<Date>)
    requires
        date.is_valid(),
    ensures
        later == month_after(date),
{
    match NaiveDate::from_ymd_opt(date.year, date.month, date.day).unwrap().checked_add_months(
        Months::new(1),
    ) {
        Some(d) => Some(Date { year: d.year(), month: d.month(), day: d.day() }),
        None => None,
    }
}

/// Calls `chrono::NaiveDate::checked_sub_months` with one month. Claims the documented
/// result: the previous month, the day clamped to its length, `None` out of range.
#[verifier::external_body]
fn chrono_sub_month(date: Date) -> (earlier: Option<Date>)
    requires
        date.is_valid(),
    ensures
        earlier == month_before(date),
{
    match NaiveDate::from_ymd_opt(date.year, date.month, date.day).unwrap().checked_sub_months(
        Months::new(1),
    ) {
        Some(d) => Some(Date { year: d.year(), month: d.month(), day: d.day() }),
        None => None,
    }
}

/// Calls `chrono::Local::now` and takes its date. The result depends on the clock and
/// the time zone; all that is claimed is that it is a date chrono can hold.
#[verifier::external_body]
pub(crate) fn local_today() -> (today: Date)
    ensures
        today.is_valid(),
{
    let d = Local::now().date_naive();
    Date { year: d.year(), month: d.month(), day: d.day() }
}

/// The days of the months of `year` before `month`.
pub open spec fn days_before_month(year: int, month: int) -> int
    decreases month,
{
    if month <= 1 {
        0
    } else {
        days_before_month(year, month - 1) + month_length(year, month - 1)
    }
}

/// The days from 1 January of year 1 of the proleptic Gregorian calendar to `date`.
pub open spec fn day_number(date: Date) -> int {
    let y = date.year - 1;
    365 * y + y / 4 - y / 100 + y / 400 + days_before_month(date.year as int, date.month as int) + date.day - 1
}

/// The day of the week of `date`, counted from Monday as 0 (1 January of year 1 was a
/// Monday).
pub open spec fn weekday_from_monday(date: Date) -> int {
    day_number(date) % 7
}

impl Date {
    /// The day of the week, counted from Monday as 0.
    pub fn weekday(&self) -> (weekday: u32)
        requires
            self.is_valid(),
        ensures
            weekday == weekday_from_monday(*self),
            weekday < 7,
    {
        chrono_weekday(*self)
    }
}

/// Calls `chrono::Datelike::weekday` and `chrono::Weekday::num_days_from_monday`. Claims
/// the day of the week of the proleptic Gregorian calendar, Monday counting as 0.
#[verifier::external_body]
fn chrono_weekday(date: Date) -> (weekday: u32)
    requires
        date.is_valid(),
    ensures
        weekday == weekday_from_monday(date),
{
    NaiveDate::from_ymd_opt(date.year, date.month, date.day).unwrap().weekday().num_days_from_monday()
}

} // verus!
