//! The mode state machine: how each input event changes the application state.
use crate::app::{after_reset, AppState, Effect, Mode};
use crate::calendar::{resolve, resolved};
use crate::date::{
    checked_add_days, checked_sub_days, date_before, lemma_days_valid, max_date, min_date, next_day,
    previous_day, CalendarDate,
};
use crate::event::{
    editor_input_of, Event, KeyCode, KeyEvent, MouseButton, MouseEvent, MouseEventKind,
};
use vstd::prelude::*;

verus! {

/// Days in a week.
pub const WEEK_DAYS: u32 = 7;

/// Days skipped by Ctrl with Left or Right: four weeks.
pub const MONTH_JUMP_DAYS: u32 = 28;

/// Days skipped by Ctrl with Up or Down: seventeen weeks.
pub const SEASON_JUMP_DAYS: u32 = 119;

/// Where an arrow key moves the selection: Right and Left by a day (four weeks with Ctrl),
/// Down and Up by a week (seventeen weeks with Ctrl). A move past the end of the
/// supported range stops at the latest date, one past its start at the earliest date.
pub open spec fn moved(d: CalendarDate, code: KeyCode, ctrl: bool) -> CalendarDate {
    let later = code == KeyCode::Right || code == KeyCode::Down;
    let target = match code {
        KeyCode::Right => d.days_later(if ctrl { MONTH_JUMP_DAYS as nat } else { 1 }),
        KeyCode::Left => d.days_earlier(if ctrl { MONTH_JUMP_DAYS as nat } else { 1 }),
        KeyCode::Down => d.days_later(
            if ctrl {
                SEASON_JUMP_DAYS as nat
            } else {
                WEEK_DAYS as nat
            },
        ),
        KeyCode::Up => d.days_earlier(
            if ctrl {
                SEASON_JUMP_DAYS as nat
            } else {
                WEEK_DAYS as nat
            },
        ),
        _ => Some(d),
    };
    match target {
        Some(e) => e,
        None => if later {
            max_date()
        } else {
            min_date()
        },
    }
}

/// Moving the selection never leaves the calendar: from a real date every key leads to a
/// real date in the supported range, never before the earliest date nor after the latest.
pub proof fn lemma_moves_stay_valid(d: CalendarDate, code: KeyCode, ctrl: bool)
    requires
        d.wf(),
    ensures
        moved(d, code, ctrl).wf(),
        !date_before(moved(d, code, ctrl), min_date()),
        !date_before(max_date(), moved(d, code, ctrl)),
{
    lemma_days_valid(d, 1);
    lemma_days_valid(d, WEEK_DAYS as nat);
    lemma_days_valid(d, MONTH_JUMP_DAYS as nat);
    lemma_days_valid(d, SEASON_JUMP_DAYS as nat);
}

pub open spec fn is_arrow(code: KeyCode) -> bool {
    code == KeyCode::Right || code == KeyCode::Left || code == KeyCode::Up || code
        == KeyCode::Down
}

/// Esc or `q`, or Ctrl with `c`/`C`.
pub open spec fn quits_calendar(k: KeyEvent) -> bool {
    ||| k.code == KeyCode::Esc || k.code == KeyCode::Char('q')
    ||| k.modifiers.control && (k.code == KeyCode::Char('c') || k.code == KeyCode::Char('C'))
}

/// A key in calendar mode: quit, move the selection, or open the editor.
pub open spec fn calendar_step(app: AppState, k: KeyEvent) -> AppState {
    if quits_calendar(k) {
        AppState { quit_flag: true, ..app }
    } else if is_arrow(k.code) {
        AppState { selected_date: moved(app.selected_date, k.code, k.modifiers.control), ..app }
    } else if k.code is Enter {
        AppState { mode: Mode::EDITOR, ..app }
    } else {
        app
    }
}

/// A key in editor mode: Ctrl-S or Esc save and return to the calendar, Ctrl-C quits
/// without saving, other Ctrl chords are ignored, and the rest goes to the text buffer.
pub open spec fn editor_step(app: AppState, k: KeyEvent, today: CalendarDate) -> (
    AppState,
    Effect,
) {
    if k.modifiers.control {
        if k.code == KeyCode::Char('s') || k.code == KeyCode::Char('S') {
            (after_reset(app, today), Effect::SaveEntry(app.selected_date))
        } else if k.code == KeyCode::Char('c') || k.code == KeyCode::Char('C') {
            (AppState { quit_flag: true, ..app }, Effect::Nothing)
        } else {
            (app, Effect::Nothing)
        }
    } else if k.code is Esc {
        (after_reset(app, today), Effect::SaveEntry(app.selected_date))
    } else {
        match editor_input_of(k) {
            Some(i) => (app, Effect::Edit(i)),
            None => (app, Effect::Nothing),
        }
    }
}

/// A key routed by the mode in force when it arrives.
pub open spec fn key_step(app: AppState, k: KeyEvent, today: CalendarDate) -> (AppState, Effect) {
    match app.mode {
        Mode::CALENDAR => (calendar_step(app, k), Effect::Nothing),
        Mode::EDITOR => editor_step(app, k, today),
        Mode::SORT => (app, Effect::Unimplemented),
    }
}

/// A pointer event: in calendar mode a left press on a displayed month selects that
/// month's first day and opens the editor; anything else changes nothing.
pub open spec fn mouse_step(app: AppState, m: MouseEvent) -> AppState {
    if app.mode == Mode::CALENDAR && m.kind == MouseEventKind::Down(MouseButton::Left) {
        match resolved(app.positions@, m.column as int, m.row as int) {
            Some(a) => {
                let d = CalendarDate { year: a.year, month: a.month, day: 1 };
                if d.wf() {
                    AppState { selected_date: d, mode: Mode::EDITOR, ..app }
                } else {
                    app
                }
            },
            None => app,
        }
    } else {
        app
    }
}

/// An input event that changes the application state.
pub trait UpdateEvent {
    /// The state and effect the event leads to from `app`, on a day whose date is
    /// `today`.
    spec fn outcome(&self, app: AppState, today: CalendarDate) -> (AppState, Effect);

    fn update(&self, app: &mut AppState, today: CalendarDate) -> (e: Effect)
        requires
            old(app).wf(),
            today.wf(),
        ensures
            (*final(app), e) == self.outcome(*old(app), today),
            final(app).wf(),
    ;
}

impl KeyEvent {
    /// Handles the key in calendar mode.
    pub fn process_calendar_input(&self, app: &mut AppState)
        requires
            old(app).wf(),
        ensures
            *final(app) == calendar_step(*old(app), *self),
            final(app).wf(),
    {
        let ctrl = self.modifiers.control;
        match self.code {
            KeyCode::Esc | KeyCode::Char('q') => app.quit(),
            KeyCode::Char('c') if ctrl => app.quit(),
            KeyCode::Char('C') if ctrl => app.quit(),
            KeyCode::Right => {
                let target = if ctrl {
                    checked_add_days(app.selected_date, MONTH_JUMP_DAYS)
                } else {
                    next_day(app.selected_date)
                };
                app.selected_date = or_latest(target);
            },
            KeyCode::Left => {
                let target = if ctrl {
                    checked_sub_days(app.selected_date, MONTH_JUMP_DAYS)
                } else {
                    previous_day(app.selected_date)
                };
                app.selected_date = or_earliest(target);
            },
            KeyCode::Down => {
                let days = if ctrl {
                    SEASON_JUMP_DAYS
                } else {
                    WEEK_DAYS
                };
                app.selected_date = or_latest(checked_add_days(app.selected_date, days));
            },
            KeyCode::Up => {
                let days = if ctrl {
                    SEASON_JUMP_DAYS
                } else {
                    WEEK_DAYS
                };
                app.selected_date = or_earliest(checked_sub_days(app.selected_date, days));
            },
            KeyCode::Enter => {
                app.mode = Mode::EDITOR;
            },
            _ => {},
        }
        proof {
            lemma_moves_stay_valid(old(app).selected_date, self.code, ctrl);
        }
    }

    /// Handles the key in editor mode; leaving the editor returns to `today`.
    pub fn process_editor_input(&self, app: &mut AppState, today: CalendarDate) -> (e: Effect)
        requires
            old(app).wf(),
            today.wf(),
        ensures
            (*final(app), e) == editor_step(*old(app), *self, today),
            final(app).wf(),
    {
        if self.modifiers.control {
            match self.code {
                KeyCode::Char('s') | KeyCode::Char('S') => app.save(today),
                KeyCode::Char('c') | KeyCode::Char('C') => {
                    app.quit();
                    Effect::Nothing
                },
                _ => Effect::Nothing,
            }
        } else {
            match self.code {
                KeyCode::Esc => app.save(today),
                _ => match self.convert_to_editor_input() {
                    Some(i) => Effect::Edit(i),
                    None => Effect::Nothing,
                },
            }
        }
    }

    /// Sort mode has no input handling yet: the key changes nothing.
    pub fn process_sort_input(&self, app: &mut AppState) -> (e: Effect)
        ensures
            *final(app) == *old(app),
            e == Effect::Unimplemented,
    {
        Effect::Unimplemented
    }
}

/// `d`, or the earliest date when there is none.
fn or_earliest(d: Option<CalendarDate>) -> (r: CalendarDate)
    ensures
        r == (match d {
            Some(e) => e,
            None => min_date(),
        }),
{
    match d {
        Some(e) => e,
        None => CalendarDate::min(),
    }
}

/// `d`, or the latest date when there is none.
fn or_latest(d: Option<CalendarDate>) -> (r: CalendarDate)
    ensures
        r == (match d {
            Some(e) => e,
            None => max_date(),
        }),
{
    match d {
        Some(e) => e,
        None => CalendarDate::max(),
    }
}

impl UpdateEvent for KeyEvent {
    open spec fn outcome(&self, app: AppState, today: CalendarDate) -> (AppState, Effect) {
        key_step(app, *self, today)
    }

    fn update(&self, app: &mut AppState, today: CalendarDate) -> (e: Effect) {
        match app.mode {
            Mode::CALENDAR => {
                self.process_calendar_input(app);
                Effect::Nothing
            },
            Mode::EDITOR => self.process_editor_input(app, today),
            Mode::SORT => self.process_sort_input(app),
        }
    }
}

impl UpdateEvent for MouseEvent {
    open spec fn outcome(&self, app: AppState, today: CalendarDate) -> (AppState, Effect) {
        (mouse_step(app, *self), Effect::Nothing)
    }

    fn update(&self, app: &mut AppState, _today: CalendarDate) -> (e: Effect) {
        let left_press = match self.kind {
            MouseEventKind::Down(MouseButton::Left) => true,
            _ => false,
        };
        let calendar = match app.mode {
            Mode::CALENDAR => true,
            _ => false,
        };
        if calendar && left_press {
            if let Some(a) = resolve(&app.positions, self.column, self.row) {
                if let Some(d) = a.first_day() {
                    app.selected_date = d;
                    app.mode = Mode::EDITOR;
                }
            }
        }
        Effect::Nothing
    }
}

impl AppState {
    /// Routes one event from the main loop on a day whose date is `today`; ticks and
    /// resizes change nothing.
    pub fn handle(&mut self, event: Event, today: CalendarDate) -> (e: Effect)
        requires
            old(self).wf(),
            today.wf(),
        ensures
            final(self).wf(),
            (*final(self), e) == (match event {
                Event::Key(k) => k.outcome(*old(self), today),
                Event::Mouse(m) => m.outcome(*old(self), today),
                _ => (*old(self), Effect::Nothing),
            }),
    {
        match event {
            Event::Key(k) => k.update(self, today),
            Event::Mouse(m) => m.update(self, today),
            _ => Effect::Nothing,
        }
    }
}

} // verus!
