//! Keyboard events as the dashboard sees them: a key code, its modifier
//! keys, and the kind of event. Two events are the same key when they agree
//! after case normalization (an uppercase letter always carries SHIFT).
use vstd::prelude::*;

verus! {

#[derive(Debug, Clone, Copy, PartialEq, Eq, Structural)]
pub enum KeyCode {
    Backspace,
    Enter,
    Left,
    Right,
    Up,
    Down,
    Home,
    End,
    PageUp,
    PageDown,
    Tab,
    BackTab,
    Delete,
    Insert,
    F(u8),
    Char(char),
    Null,
    Esc,
    /// Any other key (media keys, lock keys, bare modifiers, ...).
    Other,
}

#[derive(Debug, Clone, Copy, PartialEq, Eq, Structural)]
pub struct KeyModifiers {
    pub shift: bool,
    pub control: bool,
    pub alt: bool,
    pub super_key: bool,
    pub hyper: bool,
    pub meta: bool,
}

#[derive(Debug, Clone, Copy, PartialEq, Eq, Structural)]
pub enum KeyEventKind {
    Press,
    Repeat,
    Release,
}

#[derive(Debug, Clone, Copy, PartialEq, Eq, Structural)]
pub struct KeyEventState {
    pub keypad: bool,
    pub caps_lock: bool,
    pub num_lock: bool,
}

#[derive(Debug, Clone, Copy)]
pub struct KeyEvent {
    pub code: KeyCode,
    pub modifiers: KeyModifiers,
    pub kind: KeyEventKind,
    pub state: KeyEventState,
}

impl KeyModifiers {
    pub open spec fn none_spec() -> KeyModifiers {
        KeyModifiers { shift: false, control: false, alt: false, super_key: false, hyper: false, meta: false }
    }

    /// No modifier key.
    pub fn none() -> (r: KeyModifiers)
        ensures
            r == Self::none_spec(),
    {
        KeyModifiers { shift: false, control: false, alt: false, super_key: false, hyper: false, meta: false }
    }

    /// Only CONTROL.
    pub fn control_only() -> (r: KeyModifiers)
        ensures
            r == (KeyModifiers { control: true, ..Self::none_spec() }),
    {
        KeyModifiers { shift: false, control: true, alt: false, super_key: false, hyper: false, meta: false }
    }

    /// Only SHIFT.
    pub fn shift_only() -> (r: KeyModifiers)
        ensures
            r == (KeyModifiers { shift: true, ..Self::none_spec() }),
    {
        KeyModifiers { shift: true, control: false, alt: false, super_key: false, hyper: false, meta: false }
    }

    /// Only ALT.
    pub fn alt_only() -> (r: KeyModifiers)
        ensures
            r == (KeyModifiers { alt: true, ..Self::none_spec() }),
    {
        KeyModifiers { shift: false, control: false, alt: true, super_key: false, hyper: false, meta: false }
    }
}

pub open spec fn is_ascii_upper(c: char) -> bool {
    'A' <= c && c <= 'Z'
}

pub open spec fn ascii_upper(c: char) -> char {
    if 'a' <= c && c <= 'z' {
        ((c as u32) - 32) as char
    } else {
        c
    }
}

/// The event in canonical form: SHIFT is present exactly when the key is an
/// uppercase character.
pub open spec fn normalized(k: KeyEvent) -> KeyEvent {
    match k.code {
        KeyCode::Char(c) => if is_ascii_upper(c) {
            KeyEvent { modifiers: KeyModifiers { shift: true, ..k.modifiers }, ..k }
        } else if k.modifiers.shift {
            KeyEvent { code: KeyCode::Char(ascii_upper(c)), ..k }
        } else {
            k
        },
        _ => k,
    }
}

/// Two events stand for the same key.
pub open spec fn same_key(a: KeyEvent, b: KeyEvent) -> bool {
    normalized(a) == normalized(b)
}

fn to_ascii_upper(c: char) -> (r: char)
    ensures
        r == ascii_upper(c),
{
    if 'a' <= c && c <= 'z' {
        let b = (c as u32) - 32;
        assert(b < 128);
        ((b as u8) as char)
    } else {
        c
    }
}

impl KeyEvent {
    /// A key press with no extra state.
    pub fn new(code: KeyCode, modifiers: KeyModifiers) -> (r: KeyEvent)
        ensures
            r.code == code,
            r.modifiers == modifiers,
            r.kind == KeyEventKind::Press,
            r.state == (KeyEventState { keypad: false, caps_lock: false, num_lock: false }),
    {
        KeyEvent {
            code,
            modifiers,
            kind: KeyEventKind::Press,
            state: KeyEventState { keypad: false, caps_lock: false, num_lock: false },
        }
    }

    pub fn normalize(&self) -> (r: KeyEvent)
        ensures
            r == normalized(*self),
    {
        match self.code {
            KeyCode::Char(c) => {
                if 'A' <= c && c <= 'Z' {
                    let mut m = self.modifiers;
                    m.shift = true;
                    KeyEvent { code: self.code, modifiers: m, kind: self.kind, state: self.state }
                } else if self.modifiers.shift {
                    KeyEvent { code: KeyCode::Char(to_ascii_upper(c)), modifiers: self.modifiers, kind: self.kind, state: self.state }
                } else {
                    *self
                }
            },
            _ => *self,
        }
    }

    /// The two events stand for the same key.
    pub fn same_key_as(&self, other: &KeyEvent) -> (r: bool)
        ensures
            r == same_key(*self, *other),
    {
        let a = self.normalize();
        let b = other.normalize();
        a.code == b.code && a.modifiers == b.modifiers && a.kind == b.kind && a.state == b.state
    }
}

impl PartialEq for KeyEvent {
    fn eq(&self, other: &KeyEvent) -> (r: bool) {
        self.same_key_as(other)
    }
}

impl vstd::std_specs::cmp::PartialEqSpecImpl for KeyEvent {
    open spec fn obeys_eq_spec() -> bool {
        true
    }

    open spec fn eq_spec(&self, other: &KeyEvent) -> bool {
        same_key(*self, *other)
    }
}

} // verus!
