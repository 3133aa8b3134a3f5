//! Days the calendar marks: fixed holidays, the seasons' turning points, and the
//! selected day.
use crate::date::{CalendarDate, MAX_YEAR, MIN_YEAR};
use vstd::prelude::*;

verus! {

#[derive(Clone, Copy, Debug, PartialEq, Eq, Hash)]
pub enum DayKind {
    Holiday,
    Season,
    Selected,
}

/// A marked day and the text shown for it.
#[derive(Debug, PartialEq, Eq)]
pub struct DayMark {
    pub date: CalendarDate,
    pub label: String,
    pub kind: DayKind,
}

/// Number of days marked in every year.
pub const FIXED_DAYS: usize = 14;

/// The `i`-th day marked in every year: month, day, label and kind.
pub open spec fn fixed_day(i: int) -> (u8, u8, Seq<char>, DayKind) {
    if i == 0 {
        (1, 1, "New Year's Day 🎉"@, DayKind::Holiday)
    } else if i == 1 {
        (2, 2, "Groundhog Day 🦫"@, DayKind::Holiday)
    } else if i == 2 {
        (2, 14, "Valentine's Day 💖"@, DayKind::Holiday)
    } else if i == 3 {
        (4, 1, "April Fool's Day 🃏"@, DayKind::Holiday)
    } else if i == 4 {
        (4, 22, "Earth Day 🌏"@, DayKind::Holiday)
    } else if i == 5 {
        (6, 19, "Juneteenth 🎆"@, DayKind::Holiday)
    } else if i == 6 {
        (7, 4, "Independence Day 🕌"@, DayKind::Holiday)
    } else if i == 7 {
        (12, 24, "Christmas Eve 🎄"@, DayKind::Holiday)
    } else if i == 8 {
        (12, 25, "Christmas Day 🎄"@, DayKind::Holiday)
    } else if i == 9 {
        (12, 31, "New Year's Eve 🕛"@, DayKind::Holiday)
    } else if i == 10 {
        (3, 22, "Spring Equinox 🌱"@, DayKind::Season)
    } else if i == 11 {
        (6, 21, "Summer Solstice ☀"@, DayKind::Season)
    } else if i == 12 {
        (9, 22, "Fall Equinox 🍂"@, DayKind::Season)
    } else {
        (12, 21, "Winter Solstice ⛄"@, DayKind::Season)
    }
}

fn fixed_day_at(i: usize) -> (r: (u8, u8, &'static str, DayKind))
    requires
        i < FIXED_DAYS,
    ensures
        (r.0, r.1, r.2@, r.3) == fixed_day(i as int),
{
    match i {
        0 => (1, 1, "New Year's Day 🎉", DayKind::Holiday),
        1 => (2, 2, "Groundhog Day 🦫", DayKind::Holiday),
        2 => (2, 14, "Valentine's Day 💖", DayKind::Holiday),
        3 => (4, 1, "April Fool's Day 🃏", DayKind::Holiday),
        4 => (4, 22, "Earth Day 🌏", DayKind::Holiday),
        5 => (6, 19, "Juneteenth 🎆", DayKind::Holiday),
        6 => (7, 4, "Independence Day 🕌", DayKind::Holiday),
        7 => (12, 24, "Christmas Eve 🎄", DayKind::Holiday),
        8 => (12, 25, "Christmas Day 🎄", DayKind::Holiday),
        9 => (12, 31, "New Year's Eve 🕛", DayKind::Holiday),
        10 => (3, 22, "Spring Equinox 🌱", DayKind::Season),
        11 => (6, 21, "Summer Solstice ☀", DayKind::Season),
        12 => (9, 22, "Fall Equinox 🍂", DayKind::Season),
        _ => (12, 21, "Winter Solstice ⛄", DayKind::Season),
    }
}

/// The `i`-th fixed day as it falls in `year`.
pub open spec fn fixed_mark_matches(m: DayMark, year: i32, i: int) -> bool {
    &&& m.date == CalendarDate { year, month: fixed_day(i).0, day: fixed_day(i).1 }
    &&& m.label@ == fixed_day(i).2
    &&& m.kind == fixed_day(i).3
}

/// Position of the first mark from `i` on that falls on `d`.
pub open spec fn first_mark_on(ms: Seq<DayMark>, d: CalendarDate, i: int) -> Option<int>
    decreases ms.len() - i,
{
    if i < 0 || i >= ms.len() {
        None
    } else if ms[i].date == d {
        Some(i)
    } else {
        first_mark_on(ms, d, i + 1)
    }
}

proof fn lemma_first_mark_in_range(ms: Seq<DayMark>, d: CalendarDate, i: int)
    ensures
        first_mark_on(ms, d, i) matches Some(k) ==> 0 <= i <= k < ms.len(),
    decreases ms.len() - i,
{
    if 0 <= i < ms.len() && ms[i].date != d {
        lemma_first_mark_in_range(ms, d, i + 1);
    }
}

/// The marked days of one calendar year and of the selected day.
#[derive(Debug, PartialEq, Eq)]
pub struct CalendarInfo {
    /// The fixed days of the year in table order, then the selected day.
    pub marks: Vec<DayMark>,
}

/// The fixed days as they fall in `year`.
pub fn holidays_of(year: i32) -> (r: Vec<DayMark>)
    requires
        MIN_YEAR <= year <= MAX_YEAR,
    ensures
        r@.len() == FIXED_DAYS,
        forall|i: int| 0 <= i < FIXED_DAYS ==> fixed_mark_matches(#[trigger] r@[i], year, i),
        forall|i: int| 0 <= i < FIXED_DAYS ==> (#[trigger] r@[i]).date.wf(),
{
    let mut r: Vec<DayMark> = Vec::new();
    let mut i: usize = 0;
    while i < FIXED_DAYS
        invariant
            i <= FIXED_DAYS,
            MIN_YEAR <= year <= MAX_YEAR,
            r@.len() == i,
            forall|k: int| 0 <= k < i ==> fixed_mark_matches(#[trigger] r@[k], year, k),
            forall|k: int| 0 <= k < i ==> (#[trigger] r@[k]).date.wf(),
        decreases FIXED_DAYS - i,
    {
        let (month, day, label, kind) = fixed_day_at(i);
        r.push(DayMark { date: CalendarDate { year, month, day }, label: String::from_str(label), kind });
        i = i + 1;
    }
    r
}

/// The label of the selected day: the label of the first fixed day on it, or
/// "Selected Day", followed by a space.
pub open spec fn selected_label(fixed: Seq<DayMark>, selected: CalendarDate) -> Seq<char> {
    match first_mark_on(fixed, selected, 0) {
        Some(k) => fixed[k].label@ + " "@,
        None => "Selected Day "@,
    }
}

/// `info` marks the fixed days of `year` in table order, then `selected` with its label.
pub open spec fn marks_year(info: CalendarInfo, year: i32, selected: CalendarDate) -> bool {
    &&& info.marks@.len() == FIXED_DAYS + 1
    &&& forall|i: int| 0 <= i < FIXED_DAYS ==> fixed_mark_matches(#[trigger] info.marks@[i], year, i)
    &&& info.marks@[FIXED_DAYS as int].date == selected
    &&& info.marks@[FIXED_DAYS as int].kind == DayKind::Selected
    &&& info.marks@[FIXED_DAYS as int].label@ == selected_label(
        info.marks@.take(FIXED_DAYS as int),
        selected,
    )
}

/// The marks for the calendar of `year`: its fixed days, then `selected`.
pub fn make_dates(year: i32, selected: CalendarDate) -> (info: CalendarInfo)
    requires
        MIN_YEAR <= year <= MAX_YEAR,
        selected.wf(),
    ensures
        marks_year(info, year, selected),
{
    let mut marks = holidays_of(year);
    let ghost fixed = marks@;
    assert(marks@.take(FIXED_DAYS as int) =~= fixed);
    let label = match first_label_on(&marks, selected) {
        Some(l) => l.concat(" "),
        None => String::from_str("Selected Day "),
    };
    marks.push(DayMark { date: selected, label, kind: DayKind::Selected });
    assert(marks@.take(FIXED_DAYS as int) =~= fixed);
    proof {
        lemma_first_mark_in_range(fixed, selected, 0);
    }
    CalendarInfo { marks }
}

impl CalendarInfo {
    /// The label of the first fixed day that falls on `d`, if any.
    pub fn holiday_on(&self, d: CalendarDate) -> (r: Option<String>)
        requires
            self.marks@.len() >= FIXED_DAYS,
        ensures
            r matches Some(l) ==> first_mark_on(self.marks@.take(FIXED_DAYS as int), d, 0) matches Some(
                k,
            ) && l@ == self.marks@[k].label@,
            r is None ==> first_mark_on(self.marks@.take(FIXED_DAYS as int), d, 0) is None,
    {
        first_label_on(&self.marks, d)
    }
}

fn first_label_on(marks: &Vec<DayMark>, d: CalendarDate) -> (r: Option<String>)
    requires
        marks@.len() >= FIXED_DAYS,
    ensures
        r matches Some(l) ==> first_mark_on(marks@.take(FIXED_DAYS as int), d, 0) matches Some(k)
            && l@ == marks@[k].label@,
        r is None ==> first_mark_on(marks@.take(FIXED_DAYS as int), d, 0) is None,
{
    let ghost fixed = marks@.take(FIXED_DAYS as int);
    let mut i: usize = 0;
    while i < FIXED_DAYS
        invariant
            i <= FIXED_DAYS,
            marks@.len() >= FIXED_DAYS,
            fixed == marks@.take(FIXED_DAYS as int),
            first_mark_on(fixed, d, 0) == first_mark_on(fixed, d, i as int),
        decreases FIXED_DAYS - i,
    {
        if marks[i].date == d {
            return Some(marks[i].label.clone());
        }
        i = i + 1;
    }
    None
}

} // verus!
