//! What the terminal reports: keys, pasted text and new sizes.
use vstd::prelude::*;

verus! {

#[derive(Clone, Copy, Debug, PartialEq, Eq, Structural)]
pub enum KeyCode {
    Backspace,
    Enter,
    Left,
    Right,
    Up,
    Down,
    Home,
    End,
    PageUp,
    PageDown,
    Tab,
    BackTab,
    Delete,
    Esc,
    Char(char),
    /// Any other key; none of them means anything here.
    Other,
}

#[derive(Clone, Copy, Debug, PartialEq, Eq, Structural)]
pub struct KeyModifiers {
    pub shift: bool,
    pub control: bool,
    pub alt: bool,
    pub super_key: bool,
    pub hyper: bool,
    pub meta: bool,
}

#[derive(Clone, Copy, Debug, PartialEq, Eq, Structural)]
pub enum KeyEventKind {
    Press,
    Repeat,
    Release,
}

#[derive(Clone, Copy, Debug, PartialEq, Eq, Structural)]
pub struct KeyEvent {
    pub code: KeyCode,
    pub modifiers: KeyModifiers,
    pub kind: KeyEventKind,
}

pub open spec fn no_modifiers() -> KeyModifiers {
    KeyModifiers {
        shift: false,
        control: false,
        alt: false,
        super_key: false,
        hyper: false,
        meta: false,
    }
}

pub open spec fn only_shift() -> KeyModifiers {
    KeyModifiers { shift: true, ..no_modifiers() }
}

pub open spec fn only_control() -> KeyModifiers {
    KeyModifiers { control: true, ..no_modifiers() }
}

/// Whether a key with these modifiers types its character.
pub open spec fn types_text(modifiers: KeyModifiers) -> bool {
    modifiers == no_modifiers() || modifiers == only_shift()
}

impl KeyModifiers {
    pub fn none() -> (r: KeyModifiers)
        ensures
            r == no_modifiers(),
    {
        KeyModifiers {
            shift: false,
            control: false,
            alt: false,
            super_key: false,
            hyper: false,
            meta: false,
        }
    }

    pub fn shift() -> (r: KeyModifiers)
        ensures
            r == only_shift(),
    {
        let none: KeyModifiers = KeyModifiers::none();
        KeyModifiers { shift: true, ..none }
    }

    pub fn control() -> (r: KeyModifiers)
        ensures
            r == only_control(),
    {
        let none: KeyModifiers = KeyModifiers::none();
        KeyModifiers { control: true, ..none }
    }

    pub fn is_empty(self) -> (r: bool)
        ensures
            r == (self == no_modifiers()),
    {
        self == KeyModifiers::none()
    }

    /// Whether a key with these modifiers types its character.
    pub fn types(self) -> (r: bool)
        ensures
            r == types_text(self),
    {
        self == KeyModifiers::none() || self == KeyModifiers::shift()
    }
}

impl KeyEvent {
    /// A key that was pressed.
    pub fn new(code: KeyCode, modifiers: KeyModifiers) -> (r: KeyEvent)
        ensures
            r == (KeyEvent { code, modifiers, kind: KeyEventKind::Press }),
    {
        KeyEvent { code, modifiers, kind: KeyEventKind::Press }
    }
}

#[derive(Debug)]
pub enum TerminalEvent {
    Key(KeyEvent),
    Paste(String),
    Resize { width: u16, height: u16 },
    Other,
}

// ---------------------------------------------------------------------------
// Laws
// ---------------------------------------------------------------------------

/// A key types its character without modifiers or with Shift alone.
pub proof fn only_shift_types_text(m: KeyModifiers)
    ensures
        types_text(m) <==> !m.control && !m.alt && !m.super_key && !m.hyper && !m.meta,
        m == no_modifiers() <==> types_text(m) && !m.shift,
        only_control().control && !only_control().shift && !types_text(only_control()),
{
}

} // verus!
