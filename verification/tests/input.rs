use mise_tui::action::{Action, Direction, ProfileDirection};
use mise_tui::config::KeybindsConfig;
use mise_tui::input::{parse_key_string, DispatchError, InputMode, KeyDispatcher, KeyParseError};
use mise_tui::keys::{KeyCode, KeyModifiers};

fn none() -> KeyModifiers {
    KeyModifiers::none()
}

// ── parse_key_string ─────────────────────────────────────────────────────────

#[test]
fn parse_simple_char() {
    let ke = parse_key_string("q").unwrap();
    assert_eq!(ke.code, KeyCode::Char('q'));
    assert_eq!(ke.modifiers, none());
}

#[test]
fn parse_special_char() {
    let ke = parse_key_string("?").unwrap();
    assert_eq!(ke.code, KeyCode::Char('?'));
    assert_eq!(ke.modifiers, none());
}

#[test]
fn parse_ctrl_c() {
    let ke = parse_key_string("ctrl+c").unwrap();
    assert_eq!(ke.code, KeyCode::Char('c'));
    assert_eq!(ke.modifiers, KeyModifiers::control_only());
}

#[test]
fn parse_shift_tab() {
    let ke = parse_key_string("shift+tab").unwrap();
    assert_eq!(ke.code, KeyCode::BackTab);
    // BackTab implies shift, but the modifiers still have SHIFT set
    assert!(ke.modifiers.shift);
}

#[test]
fn parse_alt_x() {
    let ke = parse_key_string("alt+x").unwrap();
    assert_eq!(ke.code, KeyCode::Char('x'));
    assert_eq!(ke.modifiers, KeyModifiers::alt_only());
}

#[test]
fn parse_tab() {
    let ke = parse_key_string("tab").unwrap();
    assert_eq!(ke.code, KeyCode::Tab);
    assert_eq!(ke.modifiers, none());
}

#[test]
fn parse_escape() {
    assert_eq!(parse_key_string("escape").unwrap().code, KeyCode::Esc);
}

#[test]
fn parse_esc_alias() {
    assert_eq!(parse_key_string("esc").unwrap().code, KeyCode::Esc);
}

#[test]
fn parse_enter() {
    assert_eq!(parse_key_string("enter").unwrap().code, KeyCode::Enter);
}

#[test]
fn parse_arrow_keys() {
    assert_eq!(parse_key_string("up").unwrap().code, KeyCode::Up);
    assert_eq!(parse_key_string("down").unwrap().code, KeyCode::Down);
    assert_eq!(parse_key_string("left").unwrap().code, KeyCode::Left);
    assert_eq!(parse_key_string("right").unwrap().code, KeyCode::Right);
}

#[test]
fn parse_ctrl_bracket() {
    let ke = parse_key_string("ctrl+]").unwrap();
    assert_eq!(ke.code, KeyCode::Char(']'));
    assert_eq!(ke.modifiers, KeyModifiers::control_only());
    let ke2 = parse_key_string("ctrl+[").unwrap();
    assert_eq!(ke2.code, KeyCode::Char('['));
    assert_eq!(ke2.modifiers, KeyModifiers::control_only());
}

#[test]
fn parse_case_insensitive() {
    let ke = parse_key_string("Ctrl+C").unwrap();
    assert_eq!(ke.code, KeyCode::Char('c'));
    assert_eq!(ke.modifiers, KeyModifiers::control_only());
    assert_eq!(parse_key_string("ESCAPE").unwrap().code, KeyCode::Esc);
}

#[test]
fn parse_whitespace_trimmed() {
    assert_eq!(parse_key_string("  q  ").unwrap().code, KeyCode::Char('q'));
}

#[test]
fn parse_empty_string_errors() {
    assert!(parse_key_string("").is_err());
    assert!(parse_key_string("   ").is_err());
}

#[test]
fn parse_unknown_modifier_errors() {
    assert!(parse_key_string("super+q").is_err());
}

#[test]
fn parse_unknown_key_name_errors() {
    assert!(parse_key_string("invalid_key_name").is_err());
}

#[test]
fn parse_trailing_plus_errors() {
    assert!(parse_key_string("ctrl+").is_err());
}

#[test]
fn parse_error_variants() {
    assert_eq!(parse_key_string(" "), Err(KeyParseError::Empty));
    assert_eq!(
        parse_key_string("hyper+q"),
        Err(KeyParseError::UnknownModifier { name: "hyper".to_string() })
    );
    assert_eq!(parse_key_string("F13"), Err(KeyParseError::UnknownKey { name: "f13".to_string() }));
    assert_eq!(parse_key_string("ctrl+shift+alt+k").unwrap().modifiers.alt, true);
    assert_eq!(parse_key_string("space").unwrap().code, KeyCode::Char(' '));
    assert_eq!(parse_key_string("pagedown").unwrap().code, KeyCode::PageDown);
}

// ── KeyDispatcher ────────────────────────────────────────────────────────────

fn default_dispatcher() -> KeyDispatcher {
    KeyDispatcher::new(&KeybindsConfig::default()).unwrap()
}

fn resolve(d: &KeyDispatcher, s: &str, mode: InputMode) -> Option<Action> {
    d.resolve(parse_key_string(s).unwrap(), mode)
}

#[test]
fn default_normal_quit() {
    assert_eq!(resolve(&default_dispatcher(), "q", InputMode::Normal), Some(Action::Quit));
}

#[test]
fn default_normal_focus_next() {
    assert_eq!(resolve(&default_dispatcher(), "tab", InputMode::Normal), Some(Action::FocusNext));
}

#[test]
fn default_normal_focus_prev() {
    assert_eq!(resolve(&default_dispatcher(), "shift+tab", InputMode::Normal), Some(Action::FocusPrev));
}

#[test]
fn default_normal_focus_directions() {
    let d = default_dispatcher();
    assert_eq!(resolve(&d, "up", InputMode::Normal), Some(Action::FocusDirection(Direction::Up)));
    assert_eq!(resolve(&d, "down", InputMode::Normal), Some(Action::FocusDirection(Direction::Down)));
    assert_eq!(resolve(&d, "left", InputMode::Normal), Some(Action::FocusDirection(Direction::Left)));
    assert_eq!(resolve(&d, "right", InputMode::Normal), Some(Action::FocusDirection(Direction::Right)));
}

#[test]
fn default_normal_help() {
    assert_eq!(resolve(&default_dispatcher(), "?", InputMode::Normal), Some(Action::ToggleHelp));
}

#[test]
fn default_normal_reload() {
    assert_eq!(resolve(&default_dispatcher(), "r", InputMode::Normal), Some(Action::ReloadConfig));
}

#[test]
fn default_normal_enter_interact() {
    assert_eq!(resolve(&default_dispatcher(), "enter", InputMode::Normal), Some(Action::EnterInteract));
}

#[test]
fn default_normal_edit_mode() {
    assert_eq!(resolve(&default_dispatcher(), "e", InputMode::Normal), Some(Action::EnterEditMode));
}

#[test]
fn default_normal_unbound_key_returns_none() {
    assert_eq!(resolve(&default_dispatcher(), "z", InputMode::Normal), None);
}

#[test]
fn interact_escape_exits() {
    assert_eq!(resolve(&default_dispatcher(), "escape", InputMode::Interact), Some(Action::ExitInteract));
}

#[test]
fn interact_ctrl_c_quits() {
    assert_eq!(resolve(&default_dispatcher(), "ctrl+c", InputMode::Interact), Some(Action::Quit));
}

#[test]
fn interact_help_toggles() {
    assert_eq!(resolve(&default_dispatcher(), "?", InputMode::Interact), Some(Action::ToggleHelp));
}

#[test]
fn interact_q_returns_none() {
    assert_eq!(resolve(&default_dispatcher(), "q", InputMode::Interact), None);
}

#[test]
fn interact_unbound_key_returns_none() {
    assert_eq!(resolve(&default_dispatcher(), "a", InputMode::Interact), None);
}

#[test]
fn help_question_mark_toggles() {
    assert_eq!(resolve(&default_dispatcher(), "?", InputMode::HelpOverlay), Some(Action::ToggleHelp));
}

#[test]
fn help_escape_toggles() {
    assert_eq!(resolve(&default_dispatcher(), "escape", InputMode::HelpOverlay), Some(Action::ToggleHelp));
}

#[test]
fn help_q_returns_none() {
    assert_eq!(resolve(&default_dispatcher(), "q", InputMode::HelpOverlay), None);
}

#[test]
fn help_any_other_key_returns_none() {
    assert_eq!(resolve(&default_dispatcher(), "a", InputMode::HelpOverlay), None);
}

#[test]
fn edit_ctrl_c_quits() {
    assert_eq!(resolve(&default_dispatcher(), "ctrl+c", InputMode::Edit), Some(Action::Quit));
}

#[test]
fn edit_help_toggles() {
    assert_eq!(resolve(&default_dispatcher(), "?", InputMode::Edit), Some(Action::ToggleHelp));
}

#[test]
fn edit_regular_key_becomes_edit_key() {
    let d = default_dispatcher();
    let key = parse_key_string("a").unwrap();
    assert_eq!(d.resolve(key, InputMode::Edit), Some(Action::EditKey(key)));
}

#[test]
fn edit_arrow_key_becomes_edit_key() {
    let d = default_dispatcher();
    let key = parse_key_string("up").unwrap();
    // "up" is bound to FocusUp, but in Edit mode it becomes EditKey
    assert_eq!(d.resolve(key, InputMode::Edit), Some(Action::EditKey(key)));
}

#[test]
fn custom_quit_key() {
    let config = KeybindsConfig { quit: Some("x".to_string()), ..Default::default() };
    let d = KeyDispatcher::new(&config).unwrap();
    assert_eq!(resolve(&d, "x", InputMode::Normal), Some(Action::Quit));
    assert_eq!(resolve(&d, "q", InputMode::Normal), None);
}

#[test]
fn duplicate_bindings_error() {
    // reload defaults to "r" too
    let config = KeybindsConfig { quit: Some("r".to_string()), ..Default::default() };
    let result = KeyDispatcher::new(&config);
    assert!(result.is_err());
    let err_msg = result.unwrap_err().message();
    assert!(err_msg.contains("Duplicate keybind"));
}

#[test]
fn cannot_remap_ctrl_c_to_other_action() {
    let config = KeybindsConfig { quit: Some("ctrl+c".to_string()), ..Default::default() };
    let result = KeyDispatcher::new(&config);
    assert!(result.is_err());
    let err_msg = result.unwrap_err().message();
    assert!(err_msg.contains("ctrl+c"));
}

#[test]
fn profile_next() {
    assert_eq!(
        resolve(&default_dispatcher(), "ctrl+]", InputMode::Normal),
        Some(Action::SwitchProfile(ProfileDirection::Next))
    );
}

#[test]
fn profile_prev() {
    assert_eq!(
        resolve(&default_dispatcher(), "ctrl+[", InputMode::Normal),
        Some(Action::SwitchProfile(ProfileDirection::Prev))
    );
}

#[test]
fn force_quit_in_all_modes() {
    let d = default_dispatcher();
    let key = parse_key_string("ctrl+c").unwrap();
    assert_eq!(d.resolve(key, InputMode::Normal), Some(Action::Quit));
    assert_eq!(d.resolve(key, InputMode::Interact), Some(Action::Quit));
    assert_eq!(d.resolve(key, InputMode::Edit), Some(Action::Quit));
    // In HelpOverlay, ctrl+c is not handled
    assert_eq!(d.resolve(key, InputMode::HelpOverlay), None);
}

// -- further cases --

#[test]
fn error_messages_name_the_culprits() {
    let e = KeyDispatcher::new(&KeybindsConfig { quit: Some("r".into()), ..Default::default() }).unwrap_err();
    assert_eq!(
        e,
        DispatchError::Duplicate { first: "quit".into(), second: "reload".into(), key: "r".into() }
    );
    assert_eq!(e.message(), "Duplicate keybind: 'quit' and 'reload' both map to 'r'");
    let e = KeyDispatcher::new(&KeybindsConfig { help: Some("Ctrl+C".into()), ..Default::default() }).unwrap_err();
    assert_eq!(e.message(), "Cannot bind 'help' to ctrl+c (reserved for force quit)");
    let e = KeyDispatcher::new(&KeybindsConfig { help: Some("meta+h".into()), ..Default::default() }).unwrap_err();
    assert_eq!(e.message(), "Unknown modifier: 'meta'");
}

#[test]
fn force_quit_setting_is_ignored() {
    let config = KeybindsConfig { force_quit: Some("x".into()), ..Default::default() };
    let d = KeyDispatcher::new(&config).unwrap();
    assert_eq!(resolve(&d, "ctrl+c", InputMode::Normal), Some(Action::Quit));
    assert_eq!(resolve(&d, "x", InputMode::Normal), None);
}

#[test]
fn uppercase_key_matches_shifted_letter() {
    let config = KeybindsConfig { edit_mode: Some("shift+e".into()), ..Default::default() };
    let d = KeyDispatcher::new(&config).unwrap();
    let upper = mise_tui::keys::KeyEvent::new(KeyCode::Char('E'), KeyModifiers::none());
    assert_eq!(d.resolve(upper, InputMode::Normal), Some(Action::EnterEditMode));
}
