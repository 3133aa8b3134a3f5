use daydream::app::{AppState, Effect, Mode};
use daydream::calendar::Rect;
use daydream::date::CalendarDate;
use daydream::event::{
    EditKey, EditorInput, Event, KeyCode, KeyEvent, KeyModifiers, MouseButton, MouseEvent,
    MouseEventKind,
};
use daydream::update::UpdateEvent;

fn date(y: i32, m: u8, d: u8) -> CalendarDate {
    CalendarDate::new(y, m, d).unwrap()
}

/// The day the tests run on, as the clock would give it.
fn today() -> CalendarDate {
    date(2024, 6, 20)
}

fn key(code: KeyCode) -> KeyEvent {
    KeyEvent::new(code, KeyModifiers::none())
}

fn ctrl(code: KeyCode) -> KeyEvent {
    KeyEvent::new(code, KeyModifiers::control())
}

#[test]
fn test_key_event_update() {
    let mut app = AppState::new(date(2024, 6, 15));

    app.mode = Mode::CALENDAR;
    for (key_code, modifier) in vec![
        (KeyCode::Esc, KeyModifiers::none()),
        (KeyCode::Char('q'), KeyModifiers::none()),
        (KeyCode::Char('c'), KeyModifiers::none()),
        (KeyCode::Char('C'), KeyModifiers::none()),
        (KeyCode::Right, KeyModifiers::none()),
        (KeyCode::Up, KeyModifiers::none()),
        (KeyCode::Left, KeyModifiers::none()),
        (KeyCode::Down, KeyModifiers::none()),
        (KeyCode::Enter, KeyModifiers::none()),
        (KeyCode::Char('c'), KeyModifiers::control()),
        (KeyCode::Char('C'), KeyModifiers::control()),
    ] {
        let before = app.selected_date;
        let key_event = KeyEvent::new(key_code, modifier);
        key_event.update(&mut app, today());
        match key_code {
            KeyCode::Esc | KeyCode::Char('q') => assert!(app.quit_flag),
            KeyCode::Char('c') | KeyCode::Char('C') if modifier.control => assert!(app.quit_flag),
            KeyCode::Right | KeyCode::Down => assert!(app.selected_date > before),
            KeyCode::Left | KeyCode::Up => assert!(app.selected_date < before),
            KeyCode::Enter => assert_eq!(app.mode, Mode::EDITOR),
            _ => {}
        }
    }

    for (key_code, modifier) in vec![
        (KeyCode::Char('S'), KeyModifiers::control()),
        (KeyCode::Char('s'), KeyModifiers::control()),
        (KeyCode::Char('C'), KeyModifiers::control()),
        (KeyCode::Char('c'), KeyModifiers::control()),
        (KeyCode::Left, KeyModifiers::none()),
        (KeyCode::Right, KeyModifiers::none()),
        (KeyCode::Up, KeyModifiers::none()),
        (KeyCode::Down, KeyModifiers::none()),
        (KeyCode::Char('a'), KeyModifiers::none()),
        (KeyCode::Delete, KeyModifiers::none()),
        (KeyCode::Backspace, KeyModifiers::none()),
        (KeyCode::Home, KeyModifiers::none()),
        (KeyCode::End, KeyModifiers::none()),
    ] {
        app.mode = Mode::EDITOR;
        let key_event = KeyEvent::new(key_code, modifier);
        let effect = key_event.update(&mut app, today());
        match key_code {
            KeyCode::Char('S') | KeyCode::Char('s') => assert_eq!(app.mode, Mode::CALENDAR),
            KeyCode::Char('C') | KeyCode::Char('c') => assert!(app.quit_flag),
            KeyCode::Char(_) => match effect {
                Effect::Edit(input) => assert_eq!(input.key, EditKey::Char('a')),
                other => panic!("expected an edit, got {:?}", other),
            },
            _ => {}
        }
    }

    app.mode = Mode::SORT;
    let sort_keys: Vec<(KeyCode, KeyModifiers)> = vec![];
    for (key_code, modifier) in sort_keys {
        let key_event = KeyEvent::new(key_code, modifier);
        key_event.update(&mut app, today());
    }
}

#[test]
fn right_arrow_moves_to_next_day() {
    let mut app = AppState::new(date(2024, 6, 15));
    let effect = key(KeyCode::Right).update(&mut app, today());
    assert_eq!(effect, Effect::Nothing);
    assert_eq!(app.selected_date, date(2024, 6, 16));
    assert_eq!(app.mode, Mode::CALENDAR);
}

#[test]
fn arrows_move_by_day_week_and_jumps() {
    let mut app = AppState::new(date(2024, 6, 15));
    key(KeyCode::Left).update(&mut app, today());
    assert_eq!(app.selected_date, date(2024, 6, 14));
    key(KeyCode::Up).update(&mut app, today());
    assert_eq!(app.selected_date, date(2024, 6, 7));
    key(KeyCode::Down).update(&mut app, today());
    assert_eq!(app.selected_date, date(2024, 6, 14));
    ctrl(KeyCode::Right).update(&mut app, today());
    assert_eq!(app.selected_date, date(2024, 7, 12));
    ctrl(KeyCode::Left).update(&mut app, today());
    assert_eq!(app.selected_date, date(2024, 6, 14));
    ctrl(KeyCode::Down).update(&mut app, today());
    assert_eq!(app.selected_date, date(2024, 10, 11));
    ctrl(KeyCode::Up).update(&mut app, today());
    assert_eq!(app.selected_date, date(2024, 6, 14));
}

#[test]
fn day_steps_cross_month_and_year_ends() {
    let mut app = AppState::new(date(2024, 12, 31));
    key(KeyCode::Right).update(&mut app, today());
    assert_eq!(app.selected_date, date(2025, 1, 1));
    key(KeyCode::Left).update(&mut app, today());
    assert_eq!(app.selected_date, date(2024, 12, 31));
    app.selected_date = date(2024, 2, 28);
    key(KeyCode::Right).update(&mut app, today());
    assert_eq!(app.selected_date, date(2024, 2, 29));
    app.selected_date = date(2023, 3, 1);
    key(KeyCode::Left).update(&mut app, today());
    assert_eq!(app.selected_date, date(2023, 2, 28));
}

#[test]
fn moves_past_the_range_stop_at_its_ends() {
    let earliest = CalendarDate::min();
    assert_eq!(earliest, date(-9999, 1, 1));
    let mut app = AppState::new(earliest);
    key(KeyCode::Left).update(&mut app, today());
    assert_eq!(app.selected_date, earliest);
    app.selected_date = date(-9999, 1, 5);
    key(KeyCode::Up).update(&mut app, today());
    assert_eq!(app.selected_date, earliest);
    let latest = CalendarDate::max();
    assert_eq!(latest, date(9999, 12, 31));
    app.selected_date = latest;
    key(KeyCode::Right).update(&mut app, today());
    assert_eq!(app.selected_date, latest);
    app.selected_date = date(9999, 12, 30);
    key(KeyCode::Down).update(&mut app, today());
    assert_eq!(app.selected_date, latest);
    app.selected_date = date(9999, 11, 1);
    ctrl(KeyCode::Down).update(&mut app, today());
    assert_eq!(app.selected_date, latest);
}

#[test]
fn calendar_quit_keys() {
    for k in [key(KeyCode::Esc), key(KeyCode::Char('q')), ctrl(KeyCode::Char('c')), ctrl(KeyCode::Char('C'))] {
        let mut app = AppState::new(date(2024, 6, 15));
        k.update(&mut app, today());
        assert!(app.quit_flag);
        assert_eq!(app.mode, Mode::CALENDAR);
    }
    let mut app = AppState::new(date(2024, 6, 15));
    key(KeyCode::Char('c')).update(&mut app, today());
    assert!(!app.quit_flag);
}

#[test]
fn enter_opens_the_editor_without_loading() {
    let mut app = AppState::new(date(2024, 6, 15));
    assert!(!app.needs_entry_load());
    key(KeyCode::Enter).update(&mut app, today());
    assert_eq!(app.mode, Mode::EDITOR);
    assert!(app.needs_entry_load());
    app.initialized();
    assert!(!app.needs_entry_load());
}

#[test]
fn ctrl_s_in_editor_saves_and_returns_to_calendar() {
    let mut app = AppState::new(date(2024, 6, 15));
    app.mode = Mode::EDITOR;
    app.initialized();
    let effect = ctrl(KeyCode::Char('s')).update(&mut app, today());
    assert_eq!(effect, Effect::SaveEntry(date(2024, 6, 15)));
    assert_eq!(app.mode, Mode::CALENDAR);
    assert!(!app.initialized);
    assert_eq!(app.selected_date, today());
}

#[test]
fn esc_in_editor_saves_too() {
    let mut app = AppState::new(date(2024, 6, 15));
    app.mode = Mode::EDITOR;
    app.initialized();
    let effect = key(KeyCode::Esc).update(&mut app, today());
    assert_eq!(effect, Effect::SaveEntry(date(2024, 6, 15)));
    assert_eq!(app.mode, Mode::CALENDAR);
    assert!(!app.initialized);
}

#[test]
fn ctrl_c_in_editor_quits_without_saving() {
    let mut app = AppState::new(date(2024, 6, 15));
    app.mode = Mode::EDITOR;
    app.initialized();
    let effect = ctrl(KeyCode::Char('c')).update(&mut app, today());
    assert_eq!(effect, Effect::Nothing);
    assert!(app.quit_flag);
    assert_eq!(app.mode, Mode::EDITOR);
    assert!(app.initialized);
}

#[test]
fn editor_forwards_plain_keys_and_ignores_others() {
    let mut app = AppState::new(date(2024, 6, 15));
    app.mode = Mode::EDITOR;
    let shifted = KeyEvent::new(
        KeyCode::Char('X'),
        KeyModifiers { control: false, alt: false, shift: true },
    );
    assert_eq!(
        shifted.update(&mut app, today()),
        Effect::Edit(EditorInput { key: EditKey::Char('X'), ctrl: false, alt: false, shift: true })
    );
    assert_eq!(key(KeyCode::F(5)).update(&mut app, today()), Effect::Edit(EditorInput {
        key: EditKey::F(5),
        ctrl: false,
        alt: false,
        shift: false,
    }));
    assert_eq!(key(KeyCode::Insert).update(&mut app, today()), Effect::Nothing);
    assert_eq!(key(KeyCode::BackTab).update(&mut app, today()), Effect::Nothing);
    assert_eq!(ctrl(KeyCode::Char('x')).update(&mut app, today()), Effect::Nothing);
    assert_eq!(app.mode, Mode::EDITOR);
}

#[test]
fn sort_mode_reports_unimplemented() {
    let mut app = AppState::new(date(2024, 6, 15));
    app.mode = Mode::SORT;
    assert_eq!(key(KeyCode::Enter).update(&mut app, today()), Effect::Unimplemented);
    assert_eq!(app.mode, Mode::SORT);
    assert_eq!(app.selected_date, date(2024, 6, 15));
}

fn left_click(column: u16, row: u16) -> MouseEvent {
    MouseEvent { kind: MouseEventKind::Down(MouseButton::Left), column, row }
}

#[test]
fn click_far_from_every_month_changes_nothing() {
    let mut app = AppState::new(date(2024, 6, 15));
    app.arrange_calendar(Rect { x: 0, y: 0, width: 120, height: 40 });
    let effect = left_click(15, 7).update(&mut app, today());
    assert_eq!(effect, Effect::Nothing);
    assert_eq!(app.selected_date, date(2024, 6, 15));
    assert_eq!(app.mode, Mode::CALENDAR);
}

#[test]
fn click_near_a_month_selects_its_first_day() {
    let mut app = AppState::new(date(2024, 6, 15));
    app.arrange_calendar(Rect { x: 0, y: 0, width: 120, height: 40 });
    left_click(31, 14).update(&mut app, today());
    assert_eq!(app.selected_date, date(2024, 11, 1));
    assert_eq!(app.mode, Mode::EDITOR);
}

#[test]
fn clicks_outside_calendar_mode_or_not_left_press_are_ignored() {
    let mut app = AppState::new(date(2024, 6, 15));
    app.arrange_calendar(Rect { x: 0, y: 0, width: 120, height: 40 });
    let right = MouseEvent { kind: MouseEventKind::Down(MouseButton::Right), column: 0, row: 0 };
    right.update(&mut app, today());
    assert_eq!(app.mode, Mode::CALENDAR);
    app.mode = Mode::EDITOR;
    left_click(0, 0).update(&mut app, today());
    assert_eq!(app.selected_date, date(2024, 6, 15));
}

#[test]
fn handle_routes_events() {
    let mut app = AppState::new(date(2024, 6, 15));
    assert_eq!(app.handle(Event::Tick, today()), Effect::Nothing);
    assert_eq!(app.handle(Event::Resize(80, 24), today()), Effect::Nothing);
    assert_eq!(app.handle(Event::Key(key(KeyCode::Right)), today()), Effect::Nothing);
    assert_eq!(app.selected_date, date(2024, 6, 16));
    app.arrange_calendar(Rect { x: 0, y: 0, width: 120, height: 40 });
    app.handle(Event::Mouse(left_click(1, 1)), today());
    assert_eq!(app.selected_date, date(2024, 6, 1));
    assert_eq!(app.mode, Mode::EDITOR);
}

#[test]
fn failed_load_and_failed_save_recover() {
    let mut app = AppState::new(date(2024, 6, 15));
    key(KeyCode::Enter).update(&mut app, today());
    app.entry_load_failed();
    assert_eq!(app.mode, Mode::CALENDAR);
    assert!(!app.initialized);

    app.mode = Mode::EDITOR;
    app.initialized();
    let effect = app.save(today());
    assert_eq!(effect, Effect::SaveEntry(date(2024, 6, 15)));
    assert_eq!(app.selected_date, today());
    app.save_failed(date(2024, 6, 15));
    assert_eq!(app.mode, Mode::EDITOR);
    assert_eq!(app.selected_date, date(2024, 6, 15));
    assert!(app.initialized);
}

#[test]
fn reset_and_quit() {
    let mut app = AppState::new(date(2024, 6, 15));
    app.quit();
    assert!(app.quit_flag);
    app.mode = Mode::EDITOR;
    app.initialized();
    app.reset(date(2025, 1, 2));
    assert!(!app.quit_flag);
    assert!(!app.initialized);
    assert_eq!(app.mode, Mode::CALENDAR);
    assert_eq!(app.selected_date, date(2025, 1, 2));
}

#[test]
fn arrange_calendar_marks_the_selected_year() {
    let mut app = AppState::new(date(2024, 12, 25));
    let cells = app.arrange_calendar(Rect { x: 0, y: 10, width: 120, height: 40 });
    assert_eq!(cells.len(), 12);
    assert_eq!(app.positions.len(), 12);
    assert_eq!((app.positions[0].x, app.positions[0].y), (0, 10));
    let info = app.holiday_info.as_ref().unwrap();
    assert_eq!(info.marks.len(), 15);
    assert_eq!(info.marks[14].label, "Christmas Day 🎄 ");
    assert_eq!(info.holiday_on(date(2024, 12, 25)), Some("Christmas Day 🎄".to_string()));
}
