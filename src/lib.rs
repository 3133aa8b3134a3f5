//! A terminal calendar and journal: month-grid layout, pointer hit testing,
//! the mode-driven input state machine, and the text format of entry files.
pub mod app;
pub mod calendar;
pub mod date;
pub mod entry;
pub mod event;
pub mod holidays;
pub mod update;
