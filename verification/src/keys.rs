//! Key events as the input method receives them.
use vstd::prelude::*;

verus! {

/// A key symbol.  Named keys carry their usual names; every other key is the
/// character it types.
#[allow(non_camel_case_types)]
#[derive(Clone, Copy, Debug, PartialEq, Eq, Structural)]
pub enum Keysym {
    RETURN,
    ESCAPE,
    SPACE,
    TAB,
    BACKSPACE,
    DELETE,
    LEFT,
    RIGHT,
    UP,
    DOWN,
    HOME,
    END,
    PAGE_UP,
    PAGE_DOWN,
    F6,
    F7,
    F8,
    F9,
    F10,
    Char(char),
}

/// The character a key symbol types, if any (the space bar types a space).
pub open spec fn keysym_char(k: Keysym) -> Option<char> {
    match k {
        Keysym::SPACE => Some(' '),
        Keysym::Char(c) => Some(c),
        _ => None,
    }
}

/// The value 1..=9 of a digit key.
pub open spec fn keysym_digit(k: Keysym) -> Option<usize> {
    match k {
        Keysym::Char(c) => if '1' <= c && c <= '9' {
            Some((c as u32 - '0' as u32) as usize)
        } else {
            None
        },
        _ => None,
    }
}

impl Keysym {
    /// The key symbol of a typed character (a space is the space bar).
    pub fn from_char(c: char) -> (k: Keysym)
        ensures
            c == ' ' ==> k == Keysym::SPACE,
            c != ' ' ==> k == Keysym::Char(c),
    {
        if c == ' ' {
            Keysym::SPACE
        } else {
            Keysym::Char(c)
        }
    }

    /// The value of a digit key 1..=9; `None` for every other key.
    pub fn digit_value(&self) -> (d: Option<usize>)
        ensures
            d == keysym_digit(*self),
    {
        match self {
            Keysym::Char(c) => {
                let c = *c;
                if '1' <= c && c <= '9' {
                    Some((c as u32 - '0' as u32) as usize)
                } else {
                    None
                }
            },
            _ => None,
        }
    }
}

/// Modifier keys held while a key event happens.
#[derive(Clone, Copy, Debug, PartialEq, Eq, Structural)]
pub struct KeyModifiers {
    pub shift_key: bool,
    pub control_key: bool,
    pub alt_key: bool,
}

impl KeyModifiers {
    /// No modifier held.
    pub fn new() -> (m: KeyModifiers)
        ensures
            !m.shift_key && !m.control_key && !m.alt_key,
    {
        KeyModifiers { shift_key: false, control_key: false, alt_key: false }
    }

    /// The same modifiers with Shift set as given.
    pub fn with_shift(self, on: bool) -> (m: KeyModifiers)
        ensures
            m == (KeyModifiers { shift_key: on, ..self }),
    {
        KeyModifiers { shift_key: on, ..self }
    }

    /// The same modifiers with Control set as given.
    pub fn with_control(self, on: bool) -> (m: KeyModifiers)
        ensures
            m == (KeyModifiers { control_key: on, ..self }),
    {
        KeyModifiers { control_key: on, ..self }
    }

    /// The same modifiers with Alt set as given.
    pub fn with_alt(self, on: bool) -> (m: KeyModifiers)
        ensures
            m == (KeyModifiers { alt_key: on, ..self }),
    {
        KeyModifiers { alt_key: on, ..self }
    }
}

/// A key press or release.
#[derive(Clone, Copy, Debug, PartialEq, Eq, Structural)]
pub struct KeyEvent {
    pub keysym: Keysym,
    pub modifiers: KeyModifiers,
    pub is_press: bool,
}

impl KeyEvent {
    pub fn new(keysym: Keysym, modifiers: KeyModifiers, is_press: bool) -> (k: KeyEvent)
        ensures
            k == (KeyEvent { keysym, modifiers, is_press }),
    {
        KeyEvent { keysym, modifiers, is_press }
    }

    /// The character this key types, if any.
    pub fn to_char(&self) -> (c: Option<char>)
        ensures
            c == keysym_char(self.keysym),
    {
        match self.keysym {
            Keysym::SPACE => Some(' '),
            Keysym::Char(c) => Some(c),
            _ => None,
        }
    }
}

} // verus!
