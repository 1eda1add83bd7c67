//! Key bindings: parsing key strings such as `"ctrl+c"`, building the
//! dispatcher from user overrides, and resolving key presses per input mode.
use vstd::prelude::*;

use crate::action::{Action, Direction, ProfileDirection};
use crate::config::KeybindsConfig;
use crate::keys::{KeyCode, KeyEvent, KeyEventKind, KeyEventState, KeyModifiers, same_key};
use crate::text::{
    ascii_lower, chars_eq, chars_of, lowercase, split_char, split_chars, string_from_chars, string_of_range,
    to_lowercase, trim_back, trim_front, trim_range, trimmed,
};
use crate::theme::opt_view;

verus! {

broadcast use vstd::string::group_string_axioms;

// ─── Key string parser ──────────────────────────────────────────────────────

#[derive(Debug, PartialEq)]
pub enum KeyParseError {
    Empty,
    UnknownModifier { name: String },
    UnknownKey { name: String },
}

pub enum KeyParseErrorView {
    Empty,
    UnknownModifier { name: Seq<char> },
    UnknownKey { name: Seq<char> },
}

impl View for KeyParseError {
    type V = KeyParseErrorView;

    open spec fn view(&self) -> KeyParseErrorView {
        match self {
            KeyParseError::Empty => KeyParseErrorView::Empty,
            KeyParseError::UnknownModifier { name } => KeyParseErrorView::UnknownModifier { name: name@ },
            KeyParseError::UnknownKey { name } => KeyParseErrorView::UnknownKey { name: name@ },
        }
    }
}

/// The modifiers named by `parts` (`ctrl`, `shift`, `alt`), or the first
/// part that names none.
pub open spec fn parse_modifiers(parts: Seq<Seq<char>>) -> Result<KeyModifiers, Seq<char>>
    decreases parts.len(),
{
    if parts.len() == 0 {
        Ok(KeyModifiers::none_spec())
    } else {
        match parse_modifiers(parts.drop_last()) {
            Err(e) => Err(e),
            Ok(m) => {
                let p = parts.last();
                if p == "ctrl"@ {
                    Ok(KeyModifiers { control: true, ..m })
                } else if p == "shift"@ {
                    Ok(KeyModifiers { shift: true, ..m })
                } else if p == "alt"@ {
                    Ok(KeyModifiers { alt: true, ..m })
                } else {
                    Err(p)
                }
            },
        }
    }
}

/// The key a (lowercase) key name stands for; `tab` with SHIFT is `BackTab`,
/// and any one-byte name stands for that character.
pub open spec fn key_code_for(name: Seq<char>, shift: bool) -> Option<KeyCode> {
    if name == "tab"@ {
        Some(if shift { KeyCode::BackTab } else { KeyCode::Tab })
    } else if name == "escape"@ || name == "esc"@ {
        Some(KeyCode::Esc)
    } else if name == "enter"@ || name == "return"@ {
        Some(KeyCode::Enter)
    } else if name == "space"@ {
        Some(KeyCode::Char(' '))
    } else if name == "backspace"@ {
        Some(KeyCode::Backspace)
    } else if name == "delete"@ || name == "del"@ {
        Some(KeyCode::Delete)
    } else if name == "up"@ {
        Some(KeyCode::Up)
    } else if name == "down"@ {
        Some(KeyCode::Down)
    } else if name == "left"@ {
        Some(KeyCode::Left)
    } else if name == "right"@ {
        Some(KeyCode::Right)
    } else if name == "home"@ {
        Some(KeyCode::Home)
    } else if name == "end"@ {
        Some(KeyCode::End)
    } else if name == "pageup"@ {
        Some(KeyCode::PageUp)
    } else if name == "pagedown"@ {
        Some(KeyCode::PageDown)
    } else if name.len() == 1 && (name[0] as u32) < 128 {
        Some(KeyCode::Char(name[0]))
    } else {
        None
    }
}

pub open spec fn press(code: KeyCode, modifiers: KeyModifiers) -> KeyEvent {
    KeyEvent {
        code,
        modifiers,
        kind: KeyEventKind::Press,
        state: KeyEventState { keypad: false, caps_lock: false, num_lock: false },
    }
}

/// What a human-readable key string (e.g. `"ctrl+c"`, `"shift+tab"`, `"q"`)
/// stands for: trimmed, lowercased, split on `+`; all pieces but the last are
/// modifiers, the last names the key.
pub open spec fn parse_key(s: Seq<char>) -> Result<KeyEvent, KeyParseErrorView> {
    let t = lowercase(trimmed(s));
    if t.len() == 0 {
        Err(KeyParseErrorView::Empty)
    } else {
        let parts = split_char(t, '+');
        let name = parts.last();
        match parse_modifiers(parts.drop_last()) {
            Err(p) => Err(KeyParseErrorView::UnknownModifier { name: p }),
            Ok(m) => match key_code_for(name, m.shift) {
                Some(code) => Ok(press(code, m)),
                None => Err(KeyParseErrorView::UnknownKey { name }),
            },
        }
    }
}

fn key_code_exec(name: &Vec<char>, shift: bool) -> (r: Option<KeyCode>)
    ensures
        r == key_code_for(name@, shift),
{
    if chars_eq(name, "tab") {
        Some(if shift { KeyCode::BackTab } else { KeyCode::Tab })
    } else if chars_eq(name, "escape") || chars_eq(name, "esc") {
        Some(KeyCode::Esc)
    } else if chars_eq(name, "enter") || chars_eq(name, "return") {
        Some(KeyCode::Enter)
    } else if chars_eq(name, "space") {
        Some(KeyCode::Char(' '))
    } else if chars_eq(name, "backspace") {
        Some(KeyCode::Backspace)
    } else if chars_eq(name, "delete") || chars_eq(name, "del") {
        Some(KeyCode::Delete)
    } else if chars_eq(name, "up") {
        Some(KeyCode::Up)
    } else if chars_eq(name, "down") {
        Some(KeyCode::Down)
    } else if chars_eq(name, "left") {
        Some(KeyCode::Left)
    } else if chars_eq(name, "right") {
        Some(KeyCode::Right)
    } else if chars_eq(name, "home") {
        Some(KeyCode::Home)
    } else if chars_eq(name, "end") {
        Some(KeyCode::End)
    } else if chars_eq(name, "pageup") {
        Some(KeyCode::PageUp)
    } else if chars_eq(name, "pagedown") {
        Some(KeyCode::PageDown)
    } else if name.len() == 1 && (name[0] as u32) < 128 {
        Some(KeyCode::Char(name[0]))
    } else {
        None
    }
}

/// Parse a human-readable key string (e.g. `"ctrl+c"`, `"shift+tab"`, `"q"`)
/// into a key event.
pub fn parse_key_string(s: &str) -> (r: Result<KeyEvent, KeyParseError>)
    ensures
        match r {
            Ok(k) => parse_key(s@) == Ok::<KeyEvent, KeyParseErrorView>(k),
            Err(e) => parse_key(s@) == Err::<KeyEvent, KeyParseErrorView>(e@),
        },
        (forall|i: int| 0 <= i < s@.len() ==> (s@[i] as u32) < 128) ==> lowercase(trimmed(s@))
            == trimmed(s@).map_values(|c: char| ascii_lower(c)),
{
    let raw = chars_of(s);
    let (lo, hi) = trim_range(&raw, 0, raw.len());
    assert(raw@.subrange(0, raw@.len() as int) =~= raw@);
    let trimmed_str = string_of_range(&raw, lo, hi);
    assert((forall|i: int| 0 <= i < s@.len() ==> (s@[i] as u32) < 128) ==> (forall|i: int|
        0 <= i < trimmed_str@.len() ==> (trimmed_str@[i] as u32) < 128)) by {
        assert forall|i: int| 0 <= i < trimmed_str@.len() implies trimmed_str@[i] == s@[lo + i] by {}
    }
    let lowered = to_lowercase(trimmed_str.as_str());
    let ghost ascii_fact = (forall|i: int| 0 <= i < s@.len() ==> (s@[i] as u32) < 128) ==> lowercase(
        trimmed(s@),
    ) == trimmed(s@).map_values(|c: char| ascii_lower(c));
    assert(ascii_fact);
    let t = chars_of(lowered.as_str());
    if t.len() == 0 {
        return Err(KeyParseError::Empty);
    }
    let parts = split_chars(&t, '+');
    let ghost pv = parts@.map_values(|p: Vec<char>| p@);
    let last = parts.len() - 1;
    let mut modifiers = KeyModifiers::none();
    let mut i: usize = 0;
    while i < last
        invariant
            last + 1 == parts.len(),
            i <= last,
            pv == parts@.map_values(|p: Vec<char>| p@),
            pv == split_char(t@, '+'),
            t@ == lowercase(trimmed(s@)),
            t@.len() > 0,
            parse_modifiers(pv.take(i as int)) == Ok::<KeyModifiers, Seq<char>>(modifiers),
            ascii_fact,
            ascii_fact == ((forall|i: int| 0 <= i < s@.len() ==> (s@[i] as u32) < 128) ==> lowercase(
                trimmed(s@),
            ) == trimmed(s@).map_values(|c: char| ascii_lower(c))),
        decreases last - i,
    {
        let part = &parts[i];
        assert(pv.take(i + 1).drop_last() =~= pv.take(i as int));
        assert(pv.take(i + 1).last() == part@);
        if chars_eq(part, "ctrl") {
            modifiers.control = true;
        } else if chars_eq(part, "shift") {
            modifiers.shift = true;
        } else if chars_eq(part, "alt") {
            modifiers.alt = true;
        } else {
            proof {
                assert(parse_modifiers(pv.take(i + 1)) == Err::<KeyModifiers, Seq<char>>(part@));
                assert(pv.drop_last().take(i + 1) =~= pv.take(i + 1));
                lemma_parse_modifiers_err_prefix(pv.drop_last(), i + 1);
            }
            return Err(KeyParseError::UnknownModifier { name: string_from_chars(part) });
        }
        i += 1;
    }
    assert(pv.take(last as int) =~= pv.drop_last());
    let name = &parts[last];
    match key_code_exec(name, modifiers.shift) {
        Some(code) => Ok(KeyEvent::new(code, modifiers)),
        None => Err(KeyParseError::UnknownKey { name: string_from_chars(name) }),
    }
}

/// The key string `ctrl+c` stands for ctrl+c, once its lowercase form is known.
proof fn lemma_parse_ctrl_c(s: Seq<char>)
    requires
        s == "ctrl+c"@,
        lowercase(trimmed(s)) == trimmed(s).map_values(|c: char| ascii_lower(c)),
    ensures
        parse_key(s) == Ok::<KeyEvent, KeyParseErrorView>(ctrl_c()),
{
    reveal_strlit("ctrl+c");
    reveal_strlit("ctrl");
    reveal_strlit("shift");
    reveal_strlit("alt");
    reveal_strlit("tab");
    reveal_strlit("escape");
    reveal_strlit("esc");
    reveal_strlit("enter");
    reveal_strlit("return");
    reveal_strlit("space");
    reveal_strlit("backspace");
    reveal_strlit("delete");
    reveal_strlit("del");
    reveal_strlit("up");
    reveal_strlit("down");
    reveal_strlit("left");
    reveal_strlit("right");
    reveal_strlit("home");
    reveal_strlit("end");
    reveal_strlit("pageup");
    reveal_strlit("pagedown");
    assert(trim_front(s) == s);
    assert(trim_back(s) == s);
    assert(trimmed(s) == s);
    let t = s.map_values(|c: char| ascii_lower(c));
    assert(t =~= s);
    let p1 = seq!['c'];
    let p0 = seq!['c', 't', 'r', 'l'];
    reveal_with_fuel(split_char, 7);
    assert(split_char(s, '+') =~~= seq![p0, p1]);
    let parts = split_char(s, '+');
    assert(parts.drop_last() =~~= seq![p0]);
    assert(p0 =~= "ctrl"@);
    let q = seq![p0];
    assert(q.drop_last() =~= Seq::<Seq<char>>::empty());
    assert(parse_modifiers(q.drop_last()) == Ok::<KeyModifiers, Seq<char>>(KeyModifiers::none_spec()));
    assert(q.last() == "ctrl"@);
    assert(parts.drop_last() == q);
    assert(parse_modifiers(parts.drop_last()) == Ok::<KeyModifiers, Seq<char>>(
        KeyModifiers { control: true, ..KeyModifiers::none_spec() },
    ));
    assert(key_code_for(p1, false) == Some(KeyCode::Char('c')));
}

/// Once a prefix of the modifier list fails, the whole list fails on the same piece.
pub proof fn lemma_parse_modifiers_err_prefix(parts: Seq<Seq<char>>, k: int)
    requires
        0 <= k <= parts.len(),
        parse_modifiers(parts.take(k)) is Err,
    ensures
        parse_modifiers(parts) == parse_modifiers(parts.take(k)),
    decreases parts.len() - k,
{
    if k < parts.len() {
        assert(parts.take(k + 1).drop_last() =~= parts.take(k));
        lemma_parse_modifiers_err_prefix(parts, k + 1);
    } else {
        assert(parts.take(k) =~= parts);
    }
}


// ─── InputMode / BoundAction ─────────────────────────────────────────────────

#[derive(Debug, Clone, Copy, PartialEq, Eq, Structural)]
pub enum InputMode {
    Normal,
    Interact,
    Edit,
    HelpOverlay,
}

#[derive(Debug, Clone, Copy, PartialEq, Eq, Structural)]
pub enum BoundAction {
    Quit,
    ForceQuit,
    Reload,
    Help,
    FocusNext,
    FocusPrev,
    FocusUp,
    FocusDown,
    FocusLeft,
    FocusRight,
    EnterInteract,
    ExitInteract,
    EditMode,
    ProfileNext,
    ProfilePrev,
}

// ─── KeyDispatcher ───────────────────────────────────────────────────────────

/// Maps key events to the actions they are bound to. No two bindings are the
/// same key.
#[derive(Debug)]
pub struct KeyDispatcher {
    bindings: Vec<(KeyEvent, BoundAction)>,
}

#[derive(Debug, PartialEq)]
pub enum DispatchError {
    /// A key string does not parse.
    Parse(KeyParseError),
    /// An action other than force-quit asks for `ctrl+c`.
    ReservedCtrlC { name: String },
    /// Two actions map to the same key.
    Duplicate { first: String, second: String, key: String },
}

pub enum DispatchErrorView {
    Parse(KeyParseErrorView),
    ReservedCtrlC { name: Seq<char> },
    Duplicate { first: Seq<char>, second: Seq<char>, key: Seq<char> },
}

impl View for DispatchError {
    type V = DispatchErrorView;

    open spec fn view(&self) -> DispatchErrorView {
        match self {
            DispatchError::Parse(e) => DispatchErrorView::Parse(e@),
            DispatchError::ReservedCtrlC { name } => DispatchErrorView::ReservedCtrlC { name: name@ },
            DispatchError::Duplicate { first, second, key } => DispatchErrorView::Duplicate {
                first: first@,
                second: second@,
                key: key@,
            },
        }
    }
}

/// The message shown for a dispatcher error.
pub open spec fn dispatch_message(e: DispatchErrorView) -> Seq<char> {
    match e {
        DispatchErrorView::Parse(KeyParseErrorView::Empty) => "Empty key string"@,
        DispatchErrorView::Parse(KeyParseErrorView::UnknownModifier { name }) => "Unknown modifier: '"@ + name
            + "'"@,
        DispatchErrorView::Parse(KeyParseErrorView::UnknownKey { name }) => "Unknown key: '"@ + name + "'"@,
        DispatchErrorView::ReservedCtrlC { name } => "Cannot bind '"@ + name
            + "' to ctrl+c (reserved for force quit)"@,
        DispatchErrorView::Duplicate { first, second, key } => "Duplicate keybind: '"@ + first + "' and '"@
            + second + "' both map to '"@ + key + "'"@,
    }
}

impl DispatchError {
    /// A human-readable description of the error.
    pub fn message(&self) -> (r: String)
        ensures
            r@ == dispatch_message(self@),
    {
        match self {
            DispatchError::Parse(KeyParseError::Empty) => String::from_str("Empty key string"),
            DispatchError::Parse(KeyParseError::UnknownModifier { name }) => {
                let mut m = String::from_str("Unknown modifier: '");
                m.append(name.as_str());
                m.append("'");
                m
            },
            DispatchError::Parse(KeyParseError::UnknownKey { name }) => {
                let mut m = String::from_str("Unknown key: '");
                m.append(name.as_str());
                m.append("'");
                m
            },
            DispatchError::ReservedCtrlC { name } => {
                let mut m = String::from_str("Cannot bind '");
                m.append(name.as_str());
                m.append("' to ctrl+c (reserved for force quit)");
                m
            },
            DispatchError::Duplicate { first, second, key } => {
                let mut m = String::from_str("Duplicate keybind: '");
                m.append(first.as_str());
                m.append("' and '");
                m.append(second.as_str());
                m.append("' both map to '");
                m.append(key.as_str());
                m.append("'");
                m
            },
        }
    }
}

/// One row of the binding table: the action, its config name, the user's
/// override, and the default key string.
pub struct BindingSpec {
    pub action: BoundAction,
    pub name: Seq<char>,
    pub user: Option<Seq<char>>,
    pub default: Seq<char>,
}

/// The bindings in the order they are made. Force-quit comes first and is
/// always `ctrl+c`: the config cannot remap it.
pub open spec fn binding_table(c: KeybindsConfig) -> Seq<BindingSpec> {
    seq![
        BindingSpec { action: BoundAction::ForceQuit, name: "force_quit"@, user: None, default: "ctrl+c"@ },
        BindingSpec { action: BoundAction::Quit, name: "quit"@, user: opt_view(c.quit), default: "q"@ },
        BindingSpec { action: BoundAction::Reload, name: "reload"@, user: opt_view(c.reload), default: "r"@ },
        BindingSpec { action: BoundAction::Help, name: "help"@, user: opt_view(c.help), default: "?"@ },
        BindingSpec { action: BoundAction::FocusNext, name: "focus_next"@, user: opt_view(c.focus_next), default: "tab"@ },
        BindingSpec { action: BoundAction::FocusPrev, name: "focus_prev"@, user: opt_view(c.focus_prev), default: "shift+tab"@ },
        BindingSpec { action: BoundAction::FocusUp, name: "focus_up"@, user: opt_view(c.focus_up), default: "up"@ },
        BindingSpec { action: BoundAction::FocusDown, name: "focus_down"@, user: opt_view(c.focus_down), default: "down"@ },
        BindingSpec { action: BoundAction::FocusLeft, name: "focus_left"@, user: opt_view(c.focus_left), default: "left"@ },
        BindingSpec { action: BoundAction::FocusRight, name: "focus_right"@, user: opt_view(c.focus_right), default: "right"@ },
        BindingSpec { action: BoundAction::EnterInteract, name: "enter_interact"@, user: opt_view(c.enter_interact), default: "enter"@ },
        BindingSpec { action: BoundAction::ExitInteract, name: "exit_interact"@, user: opt_view(c.exit_interact), default: "escape"@ },
        BindingSpec { action: BoundAction::EditMode, name: "edit_mode"@, user: opt_view(c.edit_mode), default: "e"@ },
        BindingSpec { action: BoundAction::ProfileNext, name: "profile_next"@, user: opt_view(c.profile_next), default: "ctrl+]"@ },
        BindingSpec { action: BoundAction::ProfilePrev, name: "profile_prev"@, user: opt_view(c.profile_prev), default: "ctrl+["@ },
    ]
}

/// The key string a table row binds: the user's override, else the default.
pub open spec fn key_string_of(b: BindingSpec) -> Seq<char> {
    match b.user {
        Some(u) => u,
        None => b.default,
    }
}

pub open spec fn ctrl_c() -> KeyEvent {
    press(KeyCode::Char('c'), KeyModifiers { control: true, ..KeyModifiers::none_spec() })
}

/// The first binding made so far whose key is `k`.
pub open spec fn first_same_key(made: Seq<(KeyEvent, BoundAction, Seq<char>)>, k: KeyEvent) -> Option<int>
    decreases made.len(),
{
    if made.len() == 0 {
        None
    } else {
        match first_same_key(made.drop_last(), k) {
            Some(i) => Some(i),
            None => if same_key(made.last().0, k) { Some(made.len() - 1) } else { None },
        }
    }
}

/// Bind the first `n` rows of `table` in order, stopping at the first error.
/// Each binding remembers the config name that made it.
pub open spec fn build_bindings(table: Seq<BindingSpec>, n: int) -> Result<Seq<(KeyEvent, BoundAction, Seq<char>)>, DispatchErrorView>
    decreases n,
{
    if n <= 0 {
        Ok(seq![])
    } else {
        match build_bindings(table, n - 1) {
            Err(e) => Err(e),
            Ok(made) => {
                let b = table[n - 1];
                let key_str = key_string_of(b);
                match parse_key(key_str) {
                    Err(e) => Err(DispatchErrorView::Parse(e)),
                    Ok(k) => if b.action != BoundAction::ForceQuit && same_key(k, ctrl_c()) {
                        Err(DispatchErrorView::ReservedCtrlC { name: b.name })
                    } else {
                        match first_same_key(made, k) {
                            Some(i) => Err(DispatchErrorView::Duplicate { first: made[i].2, second: b.name, key: key_str }),
                            None => Ok(made.push((k, b.action, b.name))),
                        }
                    },
                }
            },
        }
    }
}

pub open spec fn strip_names(made: Seq<(KeyEvent, BoundAction, Seq<char>)>) -> Seq<(KeyEvent, BoundAction)> {
    made.map_values(|t: (KeyEvent, BoundAction, Seq<char>)| (t.0, t.1))
}

impl KeyDispatcher {
    pub closed spec fn bindings(&self) -> Seq<(KeyEvent, BoundAction)> {
        self.bindings@
    }

    /// Build a dispatcher from the user's keybind overrides.
    ///
    /// `ctrl+c` is always bound to `ForceQuit` and cannot be remapped.
    /// Fails if a key string does not parse or two actions map to the same key.
    pub fn new(config: &KeybindsConfig) -> (r: Result<KeyDispatcher, DispatchError>)
        ensures
            match r {
                Ok(d) => build_bindings(binding_table(*config), 15) matches Ok(made) && d.bindings()
                    == strip_names(made),
                Err(e) => build_bindings(binding_table(*config), 15) == Err::<
                    Seq<(KeyEvent, BoundAction, Seq<char>)>,
                    DispatchErrorView,
                >(e@),
            },
            r matches Ok(d) ==> lookup(d.bindings(), ctrl_c()) == Some(BoundAction::ForceQuit),
    {
        let table: Vec<(BoundAction, &str, &Option<String>, &str)> = vec![
            (BoundAction::ForceQuit, "force_quit", &None, "ctrl+c"),
            (BoundAction::Quit, "quit", &config.quit, "q"),
            (BoundAction::Reload, "reload", &config.reload, "r"),
            (BoundAction::Help, "help", &config.help, "?"),
            (BoundAction::FocusNext, "focus_next", &config.focus_next, "tab"),
            (BoundAction::FocusPrev, "focus_prev", &config.focus_prev, "shift+tab"),
            (BoundAction::FocusUp, "focus_up", &config.focus_up, "up"),
            (BoundAction::FocusDown, "focus_down", &config.focus_down, "down"),
            (BoundAction::FocusLeft, "focus_left", &config.focus_left, "left"),
            (BoundAction::FocusRight, "focus_right", &config.focus_right, "right"),
            (BoundAction::EnterInteract, "enter_interact", &config.enter_interact, "enter"),
            (BoundAction::ExitInteract, "exit_interact", &config.exit_interact, "escape"),
            (BoundAction::EditMode, "edit_mode", &config.edit_mode, "e"),
            (BoundAction::ProfileNext, "profile_next", &config.profile_next, "ctrl+]"),
            (BoundAction::ProfilePrev, "profile_prev", &config.profile_prev, "ctrl+["),
        ];
        let ghost spec_table = binding_table(*config);
        assert(table@.len() == 15);
        assert(forall|i: int| 0 <= i < 15 ==> {
            &&& (#[trigger] table@[i]).0 == spec_table[i].action
            &&& table@[i].1@ == spec_table[i].name
            &&& opt_view(*table@[i].2) == spec_table[i].user
            &&& table@[i].3@ == spec_table[i].default
        });
        let ctrl_c_key = KeyEvent::new(KeyCode::Char('c'), KeyModifiers::control_only());
        let mut bindings: Vec<(KeyEvent, BoundAction)> = Vec::new();
        let mut names: Vec<&str> = Vec::new();
        let mut i: usize = 0;
        while i < 15
            invariant
                i <= 15,
                table@.len() == 15,
                spec_table == binding_table(*config),
                ctrl_c_key == ctrl_c(),
                forall|j: int| 0 <= j < 15 ==> {
                    &&& (#[trigger] table@[j]).0 == spec_table[j].action
                    &&& table@[j].1@ == spec_table[j].name
                    &&& opt_view(*table@[j].2) == spec_table[j].user
                    &&& table@[j].3@ == spec_table[j].default
                },
                build_bindings(spec_table, i as int) matches Ok(made) && bindings@.len() == made.len()
                    && names@.len() == made.len() && forall|j: int|
                    0 <= j < made.len() ==> (#[trigger] bindings@[j]).0 == made[j].0 && bindings@[j].1
                    == made[j].1 && names@[j]@ == made[j].2,
                i > 0 ==> same_key(bindings@[0].0, ctrl_c()) && bindings@[0].1 == BoundAction::ForceQuit,
            decreases 15 - i,
        {
            let (action, name, user, default) = table[i];
            let key_str: &str = match user {
                Some(u) => u.as_str(),
                None => default,
            };
            assert(key_str@ == key_string_of(spec_table[i as int]));
            let key_event = match parse_key_string(key_str) {
                Ok(k) => k,
                Err(e) => {
                    proof {
                        lemma_build_err_stable(spec_table, i as int + 1, 15);
                    }
                    return Err(DispatchError::Parse(e));
                },
            };
            proof {
                if i == 0 {
                    reveal_strlit("ctrl+c");
                    assert(key_str@ == "ctrl+c"@);
                    lemma_parse_ctrl_c(key_str@);
                }
            }
            let is_force = match action {
                BoundAction::ForceQuit => true,
                _ => false,
            };
            if !is_force && key_event.same_key_as(&ctrl_c_key) {
                proof {
                    lemma_build_err_stable(spec_table, i as int + 1, 15);
                }
                return Err(DispatchError::ReservedCtrlC { name: name.to_string() });
            }
            let ghost made = build_bindings(spec_table, i as int)->Ok_0;
            let mut j: usize = 0;
            #[verifier::loop_isolation(false)]
            while j < bindings.len()
                invariant
                    j <= bindings.len(),
                    bindings@.len() == made.len(),
                    forall|t: int| 0 <= t < made.len() ==> (#[trigger] bindings@[t]).0 == made[t].0,
                    first_same_key(made.take(j as int), key_event) is None,
                decreases bindings.len() - j,
            {
                assert(made.take(j + 1).drop_last() =~= made.take(j as int));
                if bindings[j].0.same_key_as(&key_event) {
                    proof {
                        assert(first_same_key(made.take(j + 1), key_event) == Some(j as int));
                        lemma_first_same_key_stable(made, j as int + 1);
                        lemma_build_err_stable(spec_table, i as int + 1, 15);
                    }
                    return Err(DispatchError::Duplicate {
                        first: names[j].to_string(),
                        second: name.to_string(),
                        key: key_str.to_string(),
                    });
                }
                j += 1;
            }
            assert(made.take(made.len() as int) =~= made);
            bindings.push((key_event, action));
            names.push(name);
            i += 1;
        }
        let ghost made = build_bindings(spec_table, 15)->Ok_0;
        assert(bindings@ =~= strip_names(made));
        proof {
            lemma_lookup_first(bindings@, ctrl_c());
        }
        Ok(KeyDispatcher { bindings })
    }
}

pub proof fn lemma_build_err_stable(table: Seq<BindingSpec>, k: int, n: int)
    requires
        0 <= k <= n,
        build_bindings(table, k) is Err,
    ensures
        build_bindings(table, n) == build_bindings(table, k),
    decreases n - k,
{
    if k < n {
        lemma_build_err_stable(table, k, n - 1);
    }
}

pub proof fn lemma_first_same_key_stable(made: Seq<(KeyEvent, BoundAction, Seq<char>)>, k: int)
    requires
        0 <= k <= made.len(),
    ensures
        forall|key: KeyEvent| first_same_key(made.take(k), key) is Some ==> first_same_key(made, key)
            == first_same_key(made.take(k), key),
    decreases made.len() - k,
{
    if k < made.len() {
        lemma_first_same_key_stable(made, k + 1);
        assert forall|key: KeyEvent| first_same_key(made.take(k), key) is Some implies first_same_key(made, key)
            == first_same_key(made.take(k), key) by {
            assert(made.take(k + 1).drop_last() =~= made.take(k));
        }
    } else {
        assert(made.take(k) =~= made);
    }
}


/// The action bound to `key`, if any.
pub open spec fn lookup(bindings: Seq<(KeyEvent, BoundAction)>, key: KeyEvent) -> Option<BoundAction>
    decreases bindings.len(),
{
    if bindings.len() == 0 {
        None
    } else {
        match lookup(bindings.drop_last(), key) {
            Some(a) => Some(a),
            None => if same_key(bindings.last().0, key) { Some(bindings.last().1) } else { None },
        }
    }
}

/// The application action a bound action stands for in normal mode.
pub open spec fn action_of(bound: BoundAction) -> Action {
    match bound {
        BoundAction::Quit => Action::Quit,
        BoundAction::ForceQuit => Action::Quit,
        BoundAction::Reload => Action::ReloadConfig,
        BoundAction::Help => Action::ToggleHelp,
        BoundAction::FocusNext => Action::FocusNext,
        BoundAction::FocusPrev => Action::FocusPrev,
        BoundAction::FocusUp => Action::FocusDirection(Direction::Up),
        BoundAction::FocusDown => Action::FocusDirection(Direction::Down),
        BoundAction::FocusLeft => Action::FocusDirection(Direction::Left),
        BoundAction::FocusRight => Action::FocusDirection(Direction::Right),
        BoundAction::EnterInteract => Action::EnterInteract,
        BoundAction::ExitInteract => Action::ExitInteract,
        BoundAction::EditMode => Action::EnterEditMode,
        BoundAction::ProfileNext => Action::SwitchProfile(ProfileDirection::Next),
        BoundAction::ProfilePrev => Action::SwitchProfile(ProfileDirection::Prev),
    }
}

/// How a key resolves in each input mode: the help overlay only answers help
/// and exit; interact mode only force-quit, exit and help; edit mode passes
/// every other key to the editor; normal mode maps every binding.
pub open spec fn resolve_spec(bound: Option<BoundAction>, key: KeyEvent, mode: InputMode) -> Option<Action> {
    match mode {
        InputMode::HelpOverlay => match bound {
            Some(BoundAction::Help) => Some(Action::ToggleHelp),
            Some(BoundAction::ExitInteract) => Some(Action::ToggleHelp),
            _ => None,
        },
        InputMode::Interact => match bound {
            Some(BoundAction::ForceQuit) => Some(Action::Quit),
            Some(BoundAction::ExitInteract) => Some(Action::ExitInteract),
            Some(BoundAction::Help) => Some(Action::ToggleHelp),
            _ => None,
        },
        InputMode::Edit => match bound {
            Some(BoundAction::ForceQuit) => Some(Action::Quit),
            Some(BoundAction::Help) => Some(Action::ToggleHelp),
            _ => Some(Action::EditKey(key)),
        },
        InputMode::Normal => match bound {
            Some(b) => Some(action_of(b)),
            None => None,
        },
    }
}

/// Convert a `BoundAction` to the corresponding `Action`.
pub fn bound_action_to_action(bound: BoundAction) -> (r: Action)
    ensures
        r == action_of(bound),
{
    match bound {
        BoundAction::Quit => Action::Quit,
        BoundAction::ForceQuit => Action::Quit,
        BoundAction::Reload => Action::ReloadConfig,
        BoundAction::Help => Action::ToggleHelp,
        BoundAction::FocusNext => Action::FocusNext,
        BoundAction::FocusPrev => Action::FocusPrev,
        BoundAction::FocusUp => Action::FocusDirection(Direction::Up),
        BoundAction::FocusDown => Action::FocusDirection(Direction::Down),
        BoundAction::FocusLeft => Action::FocusDirection(Direction::Left),
        BoundAction::FocusRight => Action::FocusDirection(Direction::Right),
        BoundAction::EnterInteract => Action::EnterInteract,
        BoundAction::ExitInteract => Action::ExitInteract,
        BoundAction::EditMode => Action::EnterEditMode,
        BoundAction::ProfileNext => Action::SwitchProfile(ProfileDirection::Next),
        BoundAction::ProfilePrev => Action::SwitchProfile(ProfileDirection::Prev),
    }
}

impl KeyDispatcher {
    /// The action bound to `key`, if any.
    pub fn bound(&self, key: &KeyEvent) -> (r: Option<BoundAction>)
        ensures
            r == lookup(self.bindings(), *key),
    {
        let mut i: usize = 0;
        while i < self.bindings.len()
            invariant
                i <= self.bindings.len(),
                lookup(self.bindings@.take(i as int), *key) is None,
            decreases self.bindings.len() - i,
        {
            assert(self.bindings@.take(i + 1).drop_last() =~= self.bindings@.take(i as int));
            if self.bindings[i].0.same_key_as(key) {
                proof {
                    lemma_lookup_stable(self.bindings@, i + 1);
                }
                return Some(self.bindings[i].1);
            }
            i += 1;
        }
        assert(self.bindings@.take(self.bindings@.len() as int) =~= self.bindings@);
        None
    }

    /// Resolve a key event in the given input mode to an optional `Action`.
    ///
    /// Returns `None` when the key is not handled (e.g. forwarded to the
    /// widget in interact mode, or ignored in the help overlay).
    pub fn resolve(&self, key: KeyEvent, mode: InputMode) -> (r: Option<Action>)
        ensures
            r == resolve_spec(lookup(self.bindings(), key), key, mode),
    {
        let bound = self.bound(&key);
        match mode {
            InputMode::HelpOverlay => match bound {
                Some(BoundAction::Help) => Some(Action::ToggleHelp),
                Some(BoundAction::ExitInteract) => Some(Action::ToggleHelp),
                _ => None,
            },
            InputMode::Interact => match bound {
                Some(BoundAction::ForceQuit) => Some(Action::Quit),
                Some(BoundAction::ExitInteract) => Some(Action::ExitInteract),
                Some(BoundAction::Help) => Some(Action::ToggleHelp),
                _ => None,
            },
            InputMode::Edit => match bound {
                Some(BoundAction::ForceQuit) => Some(Action::Quit),
                Some(BoundAction::Help) => Some(Action::ToggleHelp),
                _ => Some(Action::EditKey(key)),
            },
            InputMode::Normal => match bound {
                Some(b) => Some(bound_action_to_action(b)),
                None => None,
            },
        }
    }
}

/// A key bound by the first binding resolves to that binding.
proof fn lemma_lookup_first(b: Seq<(KeyEvent, BoundAction)>, key: KeyEvent)
    requires
        b.len() > 0,
        same_key(b[0].0, key),
    ensures
        lookup(b, key) == Some(b[0].1),
{
    let t = b.take(1);
    assert(t.drop_last() =~= Seq::<(KeyEvent, BoundAction)>::empty());
    assert(lookup(t.drop_last(), key) is None);
    assert(t.last() == b[0]);
    assert(lookup(t, key) == Some(b[0].1));
    lemma_lookup_stable(b, 1);
}

pub proof fn lemma_lookup_stable(b: Seq<(KeyEvent, BoundAction)>, k: int)
    requires
        0 <= k <= b.len(),
    ensures
        forall|key: KeyEvent| lookup(b.take(k), key) is Some ==> lookup(b, key) == lookup(b.take(k), key),
    decreases b.len() - k,
{
    if k < b.len() {
        lemma_lookup_stable(b, k + 1);
        assert(b.take(k + 1).drop_last() =~= b.take(k));
    } else {
        assert(b.take(k) =~= b);
    }
}

// ─── When a dispatcher can be built ─────────────────────────────────────────

/// The key row `i` of `table` asks for (meaningful when it parses).
pub open spec fn parsed_key(table: Seq<BindingSpec>, i: int) -> KeyEvent {
    parse_key(key_string_of(table[i]))->Ok_0
}

/// Rows `0..n` of `table` can all be bound: every key string parses, no
/// action but force-quit asks for `ctrl+c`, and no row asks for a key an
/// earlier row took.
pub open spec fn table_ok(table: Seq<BindingSpec>, n: int) -> bool {
    forall|i: int|
        0 <= i < n ==> {
            &&& #[trigger] parse_key(key_string_of(table[i])) is Ok
            &&& (table[i].action != BoundAction::ForceQuit ==> !same_key(parsed_key(table, i), ctrl_c()))
            &&& forall|j: int| 0 <= j < i ==> !same_key(#[trigger] parsed_key(table, j), parsed_key(table, i))
        }
}

proof fn lemma_first_same_key_none(made: Seq<(KeyEvent, BoundAction, Seq<char>)>, k: KeyEvent)
    ensures
        first_same_key(made, k) is None <==> forall|j: int| 0 <= j < made.len() ==> !same_key(#[trigger] made[j].0, k),
    decreases made.len(),
{
    if made.len() > 0 {
        lemma_first_same_key_none(made.drop_last(), k);
        assert forall|j: int| 0 <= j < made.len() - 1 implies made.drop_last()[j].0 == #[trigger] made[j].0 by {}
    }
}

proof fn lemma_build_ok_iff(table: Seq<BindingSpec>, n: int)
    requires
        0 <= n <= table.len(),
    ensures
        build_bindings(table, n) is Ok <==> table_ok(table, n),
        build_bindings(table, n) matches Ok(made) ==> made.len() == n && forall|i: int|
            0 <= i < n ==> (#[trigger] made[i]).0 == parsed_key(table, i),
    decreases n,
{
    if n > 0 {
        lemma_build_ok_iff(table, n - 1);
        if table_ok(table, n) {
            assert(table_ok(table, n - 1));
        }
        match build_bindings(table, n - 1) {
            Ok(made) => {
                let k = parsed_key(table, n - 1);
                lemma_first_same_key_none(made, k);
                if parse_key(key_string_of(table[n - 1])) is Ok {
                    assert(k == parse_key(key_string_of(table[n - 1]))->Ok_0);
                    if first_same_key(made, k) is None && !(table[n - 1].action != BoundAction::ForceQuit && same_key(k, ctrl_c())) {
                        assert forall|j: int| 0 <= j < n - 1 implies !same_key(#[trigger] parsed_key(table, j), k) by {
                            assert(made[j].0 == parsed_key(table, j));
                        }
                        assert(table_ok(table, n));
                        let m2 = made.push((k, table[n - 1].action, table[n - 1].name));
                        assert forall|i: int| 0 <= i < n implies (#[trigger] m2[i]).0 == parsed_key(table, i) by {
                            if i < n - 1 {
                                assert(m2[i] == made[i]);
                            }
                        }
                    } else if first_same_key(made, k) is Some {
                        let j = choose|j: int| 0 <= j < made.len() && same_key(#[trigger] made[j].0, k);
                        assert(same_key(parsed_key(table, j), parsed_key(table, n - 1)));
                        assert(!table_ok(table, n)) by {
                            if table_ok(table, n) {
                                assert(parse_key(key_string_of(table[n - 1])) is Ok);
                            }
                        }
                    } else {
                        assert(!table_ok(table, n)) by {
                            if table_ok(table, n) {
                                assert(parse_key(key_string_of(table[n - 1])) is Ok);
                            }
                        }
                    }
                } else {
                    assert(!table_ok(table, n)) by {
                        if table_ok(table, n) {
                            assert(parse_key(key_string_of(table[n - 1])) is Ok);
                        }
                    }
                }
            },
            Err(_) => {},
        }
    }
}

/// A dispatcher is built exactly when every key string parses, no action
/// but force-quit asks for `ctrl+c`, and no two actions ask for the same
/// key; otherwise `KeyDispatcher::new` fails.
pub proof fn lemma_dispatcher_built_iff(config: KeybindsConfig)
    ensures
        build_bindings(binding_table(config), 15) is Ok <==> table_ok(binding_table(config), 15),
{
    assert(binding_table(config).len() == 15);
    lemma_build_ok_iff(binding_table(config), 15);
}

/// In edit mode every key goes to the layout editor as it was pressed,
/// whatever action it is bound to, except force-quit (which quits) and help
/// (which opens the help overlay).
pub proof fn lemma_edit_mode_passes_keys(d: KeyDispatcher, key: KeyEvent)
    ensures
        ({
            let b = lookup(d.bindings(), key);
            let r = resolve_spec(b, key, InputMode::Edit);
            &&& b == Some(BoundAction::ForceQuit) ==> r == Some(Action::Quit)
            &&& b == Some(BoundAction::Help) ==> r == Some(Action::ToggleHelp)
            &&& b != Some(BoundAction::ForceQuit) && b != Some(BoundAction::Help) ==> r == Some(Action::EditKey(key))
        }),
{
}

} // verus!
