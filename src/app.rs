//! The application state and the effects its transitions ask the host to carry out.
use crate::calendar::{index, layout, DatePositionEntry, MonthCell, Rect};
use crate::date::CalendarDate;
use crate::event::EditorInput;
use crate::holidays::{make_dates, marks_year, CalendarInfo};
use vstd::prelude::*;

verus! {

/// Rows of months in the calendar view.
pub const CALENDAR_ROWS: u16 = 3;

/// Columns of months in the calendar view.
pub const CALENDAR_COLS: u16 = 4;

/// The operating mode, which decides how input is routed.
#[allow(non_camel_case_types)]
#[derive(Clone, Copy, Debug, PartialEq, Eq, Hash)]
pub enum Mode {
    CALENDAR,
    EDITOR,
    SORT,
}

/// Work a transition leaves to the host, which owns files and the text buffer.
#[derive(Clone, Copy, Debug, PartialEq, Eq)]
pub enum Effect {
    Nothing,
    /// Write the text buffer to the entry of this date, then discard the buffer; if the
    /// write fails, report it and call `AppState::save_failed`.
    SaveEntry(CalendarDate),
    /// Apply this input to the text buffer.
    Edit(EditorInput),
    /// The active mode has no input handling yet; nothing changed.
    Unimplemented,
}

/// Everything the application decides on.
pub struct AppState {
    pub mode: Mode,
    pub selected_date: CalendarDate,
    pub quit_flag: bool,
    /// The text buffer holds the entry of `selected_date`.
    pub initialized: bool,
    /// The marked days of the last calendar drawn.
    pub holiday_info: Option<CalendarInfo>,
    /// Where each month of the last calendar drawn sits on screen.
    pub positions: Vec<DatePositionEntry>,
}

/// `app` after a save: back to the calendar on `today`, with no entry loaded.
pub open spec fn after_reset(app: AppState, today: CalendarDate) -> AppState {
    AppState {
        mode: Mode::CALENDAR,
        selected_date: today,
        quit_flag: false,
        initialized: false,
        ..app
    }
}

impl AppState {
    pub open spec fn wf(&self) -> bool {
        self.selected_date.wf()
    }

    /// A fresh state on the calendar, with `today` selected.
    pub fn new(today: CalendarDate) -> (app: AppState)
        requires
            today.wf(),
        ensures
            app.wf(),
            app.mode == Mode::CALENDAR,
            app.selected_date == today,
            !app.quit_flag,
            !app.initialized,
            app.holiday_info is None,
            app.positions@.len() == 0,
    {
        AppState {
            mode: Mode::CALENDAR,
            selected_date: today,
            quit_flag: false,
            initialized: false,
            holiday_info: None,
            positions: Vec::new(),
        }
    }

    /// Records that the entry of the selected date is loaded into the text buffer.
    pub fn initialized(&mut self)
        ensures
            *final(self) == (AppState { initialized: true, ..*old(self) }),
    {
        self.initialized = true;
    }

    /// Returns to the calendar on `today`, with no entry loaded and the quit request
    /// cleared.
    pub fn reset(&mut self, today: CalendarDate)
        requires
            today.wf(),
        ensures
            *final(self) == after_reset(*old(self), today),
            final(self).wf(),
    {
        self.mode = Mode::CALENDAR;
        self.selected_date = today;
        self.quit_flag = false;
        self.initialized = false;
    }

    /// Leaves the editor: asks for the entry of the selected date to be written, and
    /// resets the state to `today`.
    pub fn save(&mut self, today: CalendarDate) -> (e: Effect)
        requires
            today.wf(),
        ensures
            e == Effect::SaveEntry(old(self).selected_date),
            *final(self) == after_reset(*old(self), today),
            final(self).wf(),
    {
        let date = self.selected_date;
        self.reset(today);
        Effect::SaveEntry(date)
    }

    /// Asks the main loop to stop.
    pub fn quit(&mut self)
        ensures
            *final(self) == (AppState { quit_flag: true, ..*old(self) }),
    {
        self.quit_flag = true;
    }

    /// The editor is open but its entry has not been loaded yet.
    pub fn needs_entry_load(&self) -> (r: bool)
        ensures
            r == (self.mode == Mode::EDITOR && !self.initialized),
    {
        match self.mode {
            Mode::EDITOR => !self.initialized,
            _ => false,
        }
    }

    /// The entry could not be opened: the editor is not entered.
    pub fn entry_load_failed(&mut self)
        ensures
            *final(self) == (AppState { mode: Mode::CALENDAR, initialized: false, ..*old(self) }),
    {
        self.mode = Mode::CALENDAR;
        self.initialized = false;
    }

    /// Writing the entry of `date` failed: the editor reopens on the unsaved buffer.
    pub fn save_failed(&mut self, date: CalendarDate)
        requires
            date.wf(),
        ensures
            *final(self) == (AppState {
                mode: Mode::EDITOR,
                selected_date: date,
                initialized: true,
                ..*old(self)
            }),
            final(self).wf(),
    {
        self.mode = Mode::EDITOR;
        self.selected_date = date;
        self.initialized = true;
    }

    /// Lays out the calendar view in `viewport`, starting from the selected month,
    /// records where each month went for pointer lookups, and marks the days of the
    /// selected year.
    pub fn arrange_calendar(&mut self, viewport: Rect) -> (cells: Vec<MonthCell>)
        requires
            old(self).wf(),
            viewport.wf(),
        ensures
            cells@ == crate::calendar::grid(
                viewport,
                old(self).selected_date,
                CALENDAR_ROWS as int,
                CALENDAR_COLS as int,
            ),
            final(self).positions@ == cells@.map_values(
                |c: MonthCell| crate::calendar::entry_of(c),
            ),
            final(self).mode == old(self).mode,
            final(self).selected_date == old(self).selected_date,
            final(self).quit_flag == old(self).quit_flag,
            final(self).initialized == old(self).initialized,
            final(self).holiday_info matches Some(info) && marks_year(
                info,
                old(self).selected_date.year,
                old(self).selected_date,
            ),
    {
        let cells = layout(viewport, self.selected_date, CALENDAR_ROWS, CALENDAR_COLS);
        self.positions = index(&cells);
        self.holiday_info = Some(make_dates(self.selected_date.year, self.selected_date));
        cells
    }
}

} // verus!
