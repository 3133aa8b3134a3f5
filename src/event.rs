//! Terminal input as the application sees it: keys, pointer events, ticks and resizes.
use vstd::prelude::*;

verus! {

/// A key of the keyboard.
#[derive(Clone, Copy, Debug, PartialEq, Eq, Hash)]
pub enum KeyCode {
    Backspace,
    Enter,
    Left,
    Right,
    Up,
    Down,
    Home,
    End,
    PageUp,
    PageDown,
    Tab,
    BackTab,
    Delete,
    Insert,
    F(u8),
    Char(char),
    Null,
    Esc,
    /// Any other key (media keys, lone modifiers, ...).
    Other,
}

/// Modifier keys held with a key.
#[derive(Clone, Copy, Debug, PartialEq, Eq, Hash)]
pub struct KeyModifiers {
    pub control: bool,
    pub alt: bool,
    pub shift: bool,
}

impl KeyModifiers {
    /// No modifier held.
    pub fn none() -> (m: KeyModifiers)
        ensures
            !m.control && !m.alt && !m.shift,
    {
        KeyModifiers { control: false, alt: false, shift: false }
    }

    /// Only Ctrl held.
    pub fn control() -> (m: KeyModifiers)
        ensures
            m.control && !m.alt && !m.shift,
    {
        KeyModifiers { control: true, alt: false, shift: false }
    }
}

/// A key press.
#[derive(Clone, Copy, Debug, PartialEq, Eq, Hash)]
pub struct KeyEvent {
    pub code: KeyCode,
    pub modifiers: KeyModifiers,
}

impl KeyEvent {
    pub fn new(code: KeyCode, modifiers: KeyModifiers) -> (k: KeyEvent)
        ensures
            k == (KeyEvent { code, modifiers }),
    {
        KeyEvent { code, modifiers }
    }
}

#[derive(Clone, Copy, Debug, PartialEq, Eq, Hash)]
pub enum MouseButton {
    Left,
    Right,
    Middle,
}

#[derive(Clone, Copy, Debug, PartialEq, Eq, Hash)]
pub enum MouseEventKind {
    Down(MouseButton),
    Up(MouseButton),
    /// Drags, moves and scrolling.
    Other,
}

/// A pointer event at terminal cell (`column`, `row`).
#[derive(Clone, Copy, Debug, PartialEq, Eq, Hash)]
pub struct MouseEvent {
    pub kind: MouseEventKind,
    pub column: u16,
    pub row: u16,
}

/// One unit of input delivered to the main loop.
#[derive(Clone, Copy, Debug, PartialEq, Eq)]
pub enum Event {
    /// Bounds the wait for input; carries nothing.
    Tick,
    Key(KeyEvent),
    Mouse(MouseEvent),
    /// The terminal now has this many columns and rows.
    Resize(u16, u16),
}

/// A key as the text editor understands it.
#[derive(Clone, Copy, Debug, PartialEq, Eq, Hash)]
pub enum EditKey {
    Char(char),
    F(u8),
    Backspace,
    Enter,
    Left,
    Right,
    Up,
    Down,
    Tab,
    Delete,
    Home,
    End,
    PageUp,
    PageDown,
    Null,
}

/// A key handed to the text editor, with its modifiers.
#[derive(Clone, Copy, Debug, PartialEq, Eq, Hash)]
pub struct EditorInput {
    pub key: EditKey,
    pub ctrl: bool,
    pub alt: bool,
    pub shift: bool,
}

/// The editor key for a keyboard key; `None` for keys the editor ignores.
pub open spec fn edit_key(code: KeyCode) -> Option<EditKey> {
    match code {
        KeyCode::Backspace => Some(EditKey::Backspace),
        KeyCode::Char(c) => Some(EditKey::Char(c)),
        KeyCode::Delete => Some(EditKey::Delete),
        KeyCode::Down => Some(EditKey::Down),
        KeyCode::End => Some(EditKey::End),
        KeyCode::Enter => Some(EditKey::Enter),
        KeyCode::F(n) => Some(EditKey::F(n)),
        KeyCode::Home => Some(EditKey::Home),
        KeyCode::Left => Some(EditKey::Left),
        KeyCode::PageDown => Some(EditKey::PageDown),
        KeyCode::PageUp => Some(EditKey::PageUp),
        KeyCode::Right => Some(EditKey::Right),
        KeyCode::Tab => Some(EditKey::Tab),
        KeyCode::Up => Some(EditKey::Up),
        KeyCode::Null => Some(EditKey::Null),
        _ => None,
    }
}

/// The editor input for a key press, carrying its modifiers over.
pub open spec fn editor_input_of(k: KeyEvent) -> Option<EditorInput> {
    match edit_key(k.code) {
        Some(key) => Some(
            EditorInput {
                key,
                ctrl: k.modifiers.control,
                alt: k.modifiers.alt,
                shift: k.modifiers.shift,
            },
        ),
        None => None,
    }
}

impl KeyEvent {
    /// Translates the key press for the text editor; `None` for keys it ignores.
    pub fn convert_to_editor_input(&self) -> (r: Option<EditorInput>)
        ensures
            r == editor_input_of(*self),
    {
        let key = match self.code {
            KeyCode::Backspace => EditKey::Backspace,
            KeyCode::Char(c) => EditKey::Char(c),
            KeyCode::Delete => EditKey::Delete,
            KeyCode::Down => EditKey::Down,
            KeyCode::End => EditKey::End,
            KeyCode::Enter => EditKey::Enter,
            KeyCode::F(n) => EditKey::F(n),
            KeyCode::Home => EditKey::Home,
            KeyCode::Left => EditKey::Left,
            KeyCode::PageDown => EditKey::PageDown,
            KeyCode::PageUp => EditKey::PageUp,
            KeyCode::Right => EditKey::Right,
            KeyCode::Tab => EditKey::Tab,
            KeyCode::Up => EditKey::Up,
            KeyCode::Null => EditKey::Null,
            _ => {
                return None;
            },
        };
        Some(
            EditorInput {
                key,
                ctrl: self.modifiers.control,
                alt: self.modifiers.alt,
                shift: self.modifiers.shift,
            },
        )
    }
}

} // verus!
