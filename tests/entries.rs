use daydream::date::CalendarDate;
use daydream::entry::{
    entry_file_name, entry_lines, entry_text, get_or_create, new_entry_text, EntryError,
    EntryFileStatus, EntryOpen,
};

fn date(y: i32, m: u8, d: u8) -> CalendarDate {
    CalendarDate::new(y, m, d).unwrap()
}

fn lines(ls: &[&str]) -> Vec<String> {
    ls.iter().map(|l| l.to_string()).collect()
}

#[test]
fn dates_are_checked_on_construction() {
    assert!(CalendarDate::new(2024, 2, 29).is_some());
    assert!(CalendarDate::new(2023, 2, 29).is_none());
    assert!(CalendarDate::new(1900, 2, 29).is_none());
    assert!(CalendarDate::new(2000, 2, 29).is_some());
    assert!(CalendarDate::new(2024, 4, 31).is_none());
    assert!(CalendarDate::new(2024, 13, 1).is_none());
    assert!(CalendarDate::new(2024, 1, 0).is_none());
    assert!(CalendarDate::new(10000, 1, 1).is_none());
    assert!(CalendarDate::new(-10000, 1, 1).is_none());
}

#[test]
fn canonical_date_text() {
    assert_eq!(date(2024, 6, 15).to_text(), "2024-06-15");
    assert_eq!(date(987, 1, 2).to_text(), "0987-01-02");
    assert_eq!(date(-1, 3, 5).to_text(), "-0001-03-05");
}

#[test]
fn entry_file_is_named_after_its_date() {
    assert_eq!(entry_file_name(date(2024, 6, 15)), "2024-06-15_entry.md");
    assert_eq!(entry_file_name(date(-44, 3, 15)), "-0044-03-15_entry.md");
}

#[test]
fn new_entry_starts_with_a_heading() {
    assert_eq!(new_entry_text(date(2024, 6, 15)), "# Daily Entry - 『2024-06-15』\n\n");
}

#[test]
fn opening_depends_on_what_is_at_the_path() {
    let d = date(2024, 6, 15);
    assert_eq!(get_or_create(EntryFileStatus::RegularFile, d), Ok(EntryOpen::OpenExisting));
    assert_eq!(
        get_or_create(EntryFileStatus::Missing, d),
        Ok(EntryOpen::Create("# Daily Entry - 『2024-06-15』\n\n".to_string()))
    );
    assert_eq!(get_or_create(EntryFileStatus::NotAFile, d), Err(EntryError::NotAFile));
}

#[test]
fn saved_text_joins_lines_with_a_final_newline() {
    assert_eq!(entry_text(&lines(&["a", "b", "c"])), "a\nb\nc\n");
    assert_eq!(entry_text(&lines(&[""])), "\n");
    assert_eq!(entry_text(&lines(&[])), "\n");
}

#[test]
fn loaded_lines_split_at_newlines() {
    assert_eq!(entry_lines("a\nb\nc\n"), lines(&["a", "b", "c"]));
    assert_eq!(entry_lines("a\nb"), lines(&["a", "b"]));
    assert_eq!(entry_lines("a\n\n"), lines(&["a", ""]));
    assert_eq!(entry_lines("\n"), lines(&[""]));
    assert_eq!(entry_lines(""), lines(&[]));
    assert_eq!(entry_lines("héllo 🎄\nwörld"), lines(&["héllo 🎄", "wörld"]));
}

#[test]
fn carriage_returns_stay_in_their_lines() {
    assert_eq!(entry_lines("a\r\nb\r\n"), lines(&["a\r", "b\r"]));
    assert_eq!(entry_lines("a\r\nb\r"), lines(&["a\r", "b\r"]));
    assert_eq!(entry_lines("\r\n\r"), lines(&["\r", "\r"]));
    assert_eq!(entry_lines("x\ry\n"), lines(&["x\ry"]));
}

#[test]
fn save_then_load_gives_back_the_lines() {
    for ls in [
        lines(&["# Daily Entry - 『2024-06-15』", "hello"]),
        lines(&[""]),
        lines(&["", "", "x"]),
        lines(&["one line ☀"]),
        lines(&["a\r"]),
        lines(&["x\r", "\r", "y"]),
    ] {
        assert_eq!(entry_lines(&entry_text(&ls)), ls);
    }
}

#[test]
fn typing_hello_into_a_new_entry_saves_heading_and_hello() {
    let d = date(2024, 6, 15);
    let mut buffer = entry_lines(&new_entry_text(d));
    assert_eq!(buffer, lines(&["# Daily Entry - 『2024-06-15』", ""]));
    buffer[1].push_str("hello");
    assert_eq!(entry_text(&buffer), "# Daily Entry - 『2024-06-15』\nhello\n");
}
