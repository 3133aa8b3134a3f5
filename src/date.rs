//! Calendar dates in the proleptic Gregorian calendar, bounded like `time::Date`.
use vstd::prelude::*;

verus! {

/// The earliest supported year.
pub const MIN_YEAR: i32 = -9999;

/// The latest supported year.
pub const MAX_YEAR: i32 = 9999;

pub open spec fn is_leap_year(y: int) -> bool {
    (y % 4 == 0 && y % 100 != 0) || y % 400 == 0
}

pub open spec fn days_in_month(y: int, m: int) -> int {
    if m == 2 {
        if is_leap_year(y) {
            29
        } else {
            28
        }
    } else if m == 4 || m == 6 || m == 9 || m == 11 {
        30
    } else {
        31
    }
}

/// A (year, month, day) date; `month` counts from 1 (January).
#[derive(Clone, Copy, Debug, PartialEq, Eq, Structural, Hash, PartialOrd, Ord)]
pub struct CalendarDate {
    pub year: i32,
    pub month: u8,
    pub day: u8,
}

/// The earliest supported date, -9999-01-01.
pub open spec fn min_date() -> CalendarDate {
    CalendarDate { year: MIN_YEAR, month: 1, day: 1 }
}

/// The latest supported date, 9999-12-31.
pub open spec fn max_date() -> CalendarDate {
    CalendarDate { year: MAX_YEAR, month: 12, day: 31 }
}

/// Chronological order: by year, then month, then day.
pub open spec fn date_before(a: CalendarDate, b: CalendarDate) -> bool {
    ||| a.year < b.year
    ||| a.year == b.year && a.month < b.month
    ||| a.year == b.year && a.month == b.month && a.day < b.day
}

impl CalendarDate {
    /// A real calendar date within the supported years.
    pub open spec fn wf(self) -> bool {
        &&& MIN_YEAR <= self.year <= MAX_YEAR
        &&& 1 <= self.month <= 12
        &&& 1 <= self.day <= days_in_month(self.year as int, self.month as int)
    }

    /// The day after `self` (meaningful when `self` is not the latest date).
    pub open spec fn succ(self) -> CalendarDate {
        if (self.day as int) < days_in_month(self.year as int, self.month as int) {
            CalendarDate { day: (self.day + 1) as u8, ..self }
        } else if self.month < 12 {
            CalendarDate { year: self.year, month: (self.month + 1) as u8, day: 1 }
        } else {
            CalendarDate { year: (self.year + 1) as i32, month: 1, day: 1 }
        }
    }

    /// The day before `self` (meaningful when `self` is not the earliest date).
    pub open spec fn pred(self) -> CalendarDate {
        if self.day > 1 {
            CalendarDate { day: (self.day - 1) as u8, ..self }
        } else if self.month > 1 {
            CalendarDate {
                year: self.year,
                month: (self.month - 1) as u8,
                day: days_in_month(self.year as int, self.month - 1) as u8,
            }
        } else {
            CalendarDate { year: (self.year - 1) as i32, month: 12, day: 31 }
        }
    }

    /// The date `k` days later, or `None` when that passes the latest date.
    pub open spec fn days_later(self, k: nat) -> Option<CalendarDate>
        decreases k,
    {
        if k == 0 {
            Some(self)
        } else {
            match self.days_later((k - 1) as nat) {
                Some(e) => if e == max_date() {
                    None
                } else {
                    Some(e.succ())
                },
                None => None,
            }
        }
    }

    /// The date `k` days earlier, or `None` when that passes the earliest date.
    pub open spec fn days_earlier(self, k: nat) -> Option<CalendarDate>
        decreases k,
    {
        if k == 0 {
            Some(self)
        } else {
            match self.days_earlier((k - 1) as nat) {
                Some(e) => if e == min_date() {
                    None
                } else {
                    Some(e.pred())
                },
                None => None,
            }
        }
    }

    /// Builds a date, or `None` when the parts name no supported calendar day.
    pub fn new(year: i32, month: u8, day: u8) -> (r: Option<CalendarDate>)
        ensures
            r == (if (CalendarDate { year, month, day }).wf() {
                Some(CalendarDate { year, month, day })
            } else {
                None
            }),
    {
        if year < MIN_YEAR || year > MAX_YEAR || month < 1 || month > 12 || day < 1 {
            return None;
        }
        if day > month_length(year, month) {
            return None;
        }
        Some(CalendarDate { year, month, day })
    }

    /// The earliest supported date; moves before it stop there.
    pub fn min() -> (r: CalendarDate)
        ensures
            r == min_date(),
            r.wf(),
    {
        CalendarDate { year: MIN_YEAR, month: 1, day: 1 }
    }

    /// The latest supported date; moves past it stop there.
    pub fn max() -> (r: CalendarDate)
        ensures
            r == max_date(),
            r.wf(),
    {
        CalendarDate { year: MAX_YEAR, month: 12, day: 31 }
    }

    /// The canonical text of the date, such as `2024-06-15`.
    pub fn to_text(&self) -> (r: String)
        requires
            self.wf(),
        ensures
            r@ == date_text(*self),
    {
        date_string(*self)
    }
}

/// Number of days in month `month` of `year`.
pub fn month_length(year: i32, month: u8) -> (r: u8)
    requires
        1 <= month <= 12,
    ensures
        r as int == days_in_month(year as int, month as int),
{
    if month == 2 {
        if (year % 4 == 0 && year % 100 != 0) || year % 400 == 0 {
            29
        } else {
            28
        }
    } else if month == 4 || month == 6 || month == 9 || month == 11 {
        30
    } else {
        31
    }
}

/// Relies on `time::Date::next_day`: the following calendar day, `None` after `Date::MAX`
/// (9999-12-31 without the `large-dates` feature, which nothing here enables).
#[verifier::external_body]
pub(crate) fn next_day(d: CalendarDate) -> (r: Option<CalendarDate>)
    requires
        d.wf(),
    ensures
        r == d.days_later(1),
{
    let m = time::Month::try_from(d.month).unwrap();
    let t = time::Date::from_calendar_date(d.year, m, d.day).unwrap();
    match t.next_day() {
        Some(n) => Some(CalendarDate { year: n.year(), month: n.month() as u8, day: n.day() }),
        None => None,
    }
}

/// Relies on `time::Date::previous_day`: the preceding calendar day, `None` before
/// `Date::MIN` (-9999-01-01).
#[verifier::external_body]
pub(crate) fn previous_day(d: CalendarDate) -> (r: Option<CalendarDate>)
    requires
        d.wf(),
    ensures
        r == d.days_earlier(1),
{
    let m = time::Month::try_from(d.month).unwrap();
    let t = time::Date::from_calendar_date(d.year, m, d.day).unwrap();
    match t.previous_day() {
        Some(n) => Some(CalendarDate { year: n.year(), month: n.month() as u8, day: n.day() }),
        None => None,
    }
}

/// Relies on `time::Date::checked_add`: the date `days` whole days later, `None` when the
/// result would pass `Date::MAX`. `Duration::days` cannot overflow for a `u32` count.
#[verifier::external_body]
pub(crate) fn checked_add_days(d: CalendarDate, days: u32) -> (r: Option<CalendarDate>)
    requires
        d.wf(),
    ensures
        r == d.days_later(days as nat),
{
    let m = time::Month::try_from(d.month).unwrap();
    let t = time::Date::from_calendar_date(d.year, m, d.day).unwrap();
    match t.checked_add(time::Duration::days(days as i64)) {
        Some(n) => Some(CalendarDate { year: n.year(), month: n.month() as u8, day: n.day() }),
        None => None,
    }
}

/// Relies on `time::Date::checked_sub`: the date `days` whole days earlier, `None` when the
/// result would pass `Date::MIN`. `Duration::days` cannot overflow for a `u32` count.
#[verifier::external_body]
pub(crate) fn checked_sub_days(d: CalendarDate, days: u32) -> (r: Option<CalendarDate>)
    requires
        d.wf(),
    ensures
        r == d.days_earlier(days as nat),
{
    let m = time::Month::try_from(d.month).unwrap();
    let t = time::Date::from_calendar_date(d.year, m, d.day).unwrap();
    match t.checked_sub(time::Duration::days(days as i64)) {
        Some(n) => Some(CalendarDate { year: n.year(), month: n.month() as u8, day: n.day() }),
        None => None,
    }
}

/// The decimal digit character for `n` in `0..10`.
pub open spec fn digit_char(n: int) -> char {
    (('0' as u8) + n) as char
}

/// `n` in two zero-padded decimal digits.
pub open spec fn two_digits(n: int) -> Seq<char> {
    seq![digit_char(n / 10), digit_char(n % 10)]
}

/// `n` in four zero-padded decimal digits.
pub open spec fn four_digits(n: int) -> Seq<char> {
    two_digits(n / 100) + two_digits(n % 100)
}

/// The canonical text of a date: `YYYY-MM-DD`, with a leading `-` for years before 0.
pub open spec fn date_text(d: CalendarDate) -> Seq<char> {
    let y = d.year as int;
    let sign: Seq<char> = if y < 0 {
        seq!['-']
    } else {
        seq![]
    };
    sign + four_digits(if y < 0 {
        -y
    } else {
        y
    }) + seq!['-'] + two_digits(d.month as int) + seq!['-'] + two_digits(d.day as int)
}

/// Relies on the `Display` impl of `time::Date`: an optional `-`, the year in four
/// zero-padded digits, then two-digit month and day, joined by `-`.
#[verifier::external_body]
pub(crate) fn date_string(d: CalendarDate) -> (r: String)
    requires
        d.wf(),
    ensures
        r@ == date_text(d),
{
    let m = time::Month::try_from(d.month).unwrap();
    time::Date::from_calendar_date(d.year, m, d.day).unwrap().to_string()
}

/// Every step of day arithmetic stays on a real, supported calendar date.
pub proof fn lemma_step_valid(d: CalendarDate)
    requires
        d.wf(),
    ensures
        d != max_date() ==> d.succ().wf() && date_before(d, d.succ()),
        d != min_date() ==> d.pred().wf() && date_before(d.pred(), d),
{
}

/// Day arithmetic never produces an invalid date: every date reached by moving a whole
/// number of days is a real calendar date inside the supported range, never before the
/// earliest date.
pub proof fn lemma_days_valid(d: CalendarDate, k: nat)
    requires
        d.wf(),
    ensures
        d.days_later(k) matches Some(e) ==> e.wf() && !date_before(e, min_date()),
        d.days_earlier(k) matches Some(e) ==> e.wf() && !date_before(e, min_date()),
    decreases k,
{
    if k > 0 {
        lemma_days_valid(d, (k - 1) as nat);
        if let Some(e) = d.days_later((k - 1) as nat) {
            lemma_step_valid(e);
        }
        if let Some(e) = d.days_earlier((k - 1) as nat) {
            lemma_step_valid(e);
        }
    }
}

} // verus!
