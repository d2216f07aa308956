//! Key bindings: which command a key press means.

use vstd::prelude::*;

verus! {

/// A key as the terminal reports it.
#[derive(Debug, Clone, Copy, PartialEq, Eq, Structural)]
pub enum KeyCode {
    Char(char),
    Esc,
    Enter,
    Backspace,
    Tab,
    Left,
    Right,
    Up,
    Down,
    PageUp,
    PageDown,
    Home,
    End,
    Other,
}

/// Modifier keys held with a key.
#[derive(Debug, Clone, Copy, PartialEq, Eq, Structural)]
pub struct KeyModifiers {
    pub shift: bool,
    pub control: bool,
    pub alt: bool,
}

impl KeyModifiers {
    /// No modifier held.
    pub fn none() -> (m: Self)
        ensures
            m == (KeyModifiers { shift: false, control: false, alt: false }),
    {
        KeyModifiers { shift: false, control: false, alt: false }
    }

    /// Only Control held.
    pub fn control() -> (m: Self)
        ensures
            m == (KeyModifiers { shift: false, control: true, alt: false }),
    {
        KeyModifiers { shift: false, control: true, alt: false }
    }

    /// Whether every modifier of `other` is held.
    pub fn contains(self, other: KeyModifiers) -> (r: bool)
        ensures
            r == ((other.shift ==> self.shift) && (other.control ==> self.control) && (other.alt
                ==> self.alt)),
    {
        (!other.shift || self.shift) && (!other.control || self.control) && (!other.alt || self.alt)
    }
}

/// A key press.
#[derive(Debug, Clone, Copy, PartialEq, Eq, Structural)]
pub struct KeyEvent {
    pub code: KeyCode,
    pub modifiers: KeyModifiers,
}

impl KeyEvent {
    pub fn new(code: KeyCode, modifiers: KeyModifiers) -> (k: Self)
        ensures
            k.code == code,
            k.modifiers == modifiers,
    {
        KeyEvent { code, modifiers }
    }

    /// Ctrl-C.
    pub open spec fn spec_is_interrupt(self) -> bool {
        self.modifiers.control && self.code == KeyCode::Char('c')
    }

    pub fn is_interrupt(&self) -> (r: bool)
        ensures
            r == self.spec_is_interrupt(),
    {
        self.modifiers.contains(KeyModifiers::control()) && self.code == KeyCode::Char('c')
    }
}

#[derive(Debug, Clone, Copy, PartialEq, Eq, Structural)]
pub enum Command {
    Quit,
    PreviousCommit,
    NextCommit,
    JumpBackward,
    JumpForward,
    FirstCommit,
    LastCommit,
    ScrollUp,
    ScrollDown,
    TogglePlayback,
    FasterPlayback,
    SlowerPlayback,
    FasterReveal,
    SlowerReveal,
    BeginJump,
    Noop,
}

/// The command bound to a key: Vim keys and arrow or page keys both work,
/// and Ctrl-C always quits.
pub open spec fn command_of(key: KeyEvent) -> Command {
    if key.spec_is_interrupt() {
        Command::Quit
    } else {
        match key.code {
            KeyCode::Esc | KeyCode::Char('q') => Command::Quit,
            KeyCode::Char('h') | KeyCode::Left => Command::PreviousCommit,
            KeyCode::Char('l') | KeyCode::Right => Command::NextCommit,
            KeyCode::Char('k') | KeyCode::PageUp => Command::JumpBackward,
            KeyCode::Char('j') | KeyCode::PageDown => Command::JumpForward,
            KeyCode::Home => Command::FirstCommit,
            KeyCode::End => Command::LastCommit,
            KeyCode::Up => Command::ScrollUp,
            KeyCode::Down => Command::ScrollDown,
            KeyCode::Char(' ') => Command::TogglePlayback,
            KeyCode::Char('+') | KeyCode::Char('=') => Command::FasterPlayback,
            KeyCode::Char('-') => Command::SlowerPlayback,
            KeyCode::Char(']') => Command::FasterReveal,
            KeyCode::Char('[') => Command::SlowerReveal,
            KeyCode::Char('g') | KeyCode::Char(':') => Command::BeginJump,
            _ => Command::Noop,
        }
    }
}

pub fn command_for_key(key: KeyEvent) -> (c: Command)
    ensures
        c == command_of(key),
{
    if key.modifiers.contains(KeyModifiers::control()) && key.code == KeyCode::Char('c') {
        return Command::Quit;
    }
    match key.code {
        KeyCode::Esc | KeyCode::Char('q') => Command::Quit,
        KeyCode::Char('h') | KeyCode::Left => Command::PreviousCommit,
        KeyCode::Char('l') | KeyCode::Right => Command::NextCommit,
        KeyCode::Char('k') | KeyCode::PageUp => Command::JumpBackward,
        KeyCode::Char('j') | KeyCode::PageDown => Command::JumpForward,
        KeyCode::Home => Command::FirstCommit,
        KeyCode::End => Command::LastCommit,
        KeyCode::Up => Command::ScrollUp,
        KeyCode::Down => Command::ScrollDown,
        KeyCode::Char(' ') => Command::TogglePlayback,
        KeyCode::Char('+') | KeyCode::Char('=') => Command::FasterPlayback,
        KeyCode::Char('-') => Command::SlowerPlayback,
        KeyCode::Char(']') => Command::FasterReveal,
        KeyCode::Char('[') => Command::SlowerReveal,
        KeyCode::Char('g') | KeyCode::Char(':') => Command::BeginJump,
        _ => Command::Noop,
    }
}

/// The key event of pressing `code` with `modifiers` held.
pub open spec fn pressed(code: KeyCode, modifiers: KeyModifiers) -> KeyEvent {
    KeyEvent { code, modifiers }
}

/// The Vim keys and the arrow and page keys are two spellings of the same
/// moves, whatever modifiers are held: `h` and Left go to the previous commit,
/// `l` and Right to the next, `k` and PageUp jump backward, `j` and PageDown
/// jump forward; so `k` and `j` jump in opposite directions.
pub proof fn lemma_vim_keys_match_arrow_keys(modifiers: KeyModifiers)
    ensures
        command_of(pressed(KeyCode::Char('h'), modifiers)) == command_of(pressed(KeyCode::Left, modifiers)),
        command_of(pressed(KeyCode::Char('h'), modifiers)) == Command::PreviousCommit,
        command_of(pressed(KeyCode::Char('l'), modifiers)) == command_of(pressed(KeyCode::Right, modifiers)),
        command_of(pressed(KeyCode::Char('l'), modifiers)) == Command::NextCommit,
        command_of(pressed(KeyCode::Char('k'), modifiers)) == command_of(pressed(KeyCode::PageUp, modifiers)),
        command_of(pressed(KeyCode::Char('k'), modifiers)) == Command::JumpBackward,
        command_of(pressed(KeyCode::Char('j'), modifiers)) == command_of(pressed(KeyCode::PageDown, modifiers)),
        command_of(pressed(KeyCode::Char('j'), modifiers)) == Command::JumpForward,
{
}

} // verus!
