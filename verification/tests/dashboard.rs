use mise_tui::action::Direction;
use mise_tui::config::{PanelConfig, ProfileConfig};
use mise_tui::dashboard::{
    border_kind, contains_id, focus_after_reload, focus_direction, focus_next, focus_prev,
    footer_text, is_undersized, may_enter_interact, recovery_message, reload_message, route_key,
    BorderKind, KeyRoute, Recovery, Supervisor,
};
use mise_tui::keys::{KeyCode, KeyEvent, KeyModifiers};
use mise_tui::layout::LayoutEngine;

fn key(code: KeyCode) -> KeyEvent {
    KeyEvent::new(code, KeyModifiers::none())
}

fn panel(row: usize, col: usize, ty: &str) -> PanelConfig {
    PanelConfig { row, col, widget_type: ty.into(), id: None, col_span: 1, row_span: 1 }
}

fn engine(rows: usize, columns: usize, panels: Vec<PanelConfig>) -> LayoutEngine {
    let config = ProfileConfig {
        columns,
        rows,
        column_widths: None,
        row_heights: None,
        header: false,
        footer: false,
        panels,
    };
    LayoutEngine::from_config(&config).unwrap()
}

#[test]
fn help_overlay_takes_every_key() {
    assert_eq!(route_key(true, false, &key(KeyCode::Char('?'))), KeyRoute::CloseHelp);
    assert_eq!(route_key(true, false, &key(KeyCode::Esc)), KeyRoute::CloseHelp);
    assert_eq!(route_key(true, false, &key(KeyCode::Char('q'))), KeyRoute::Ignore);
}

#[test]
fn quit_keys_quit_in_every_mode() {
    let ctrl_c = KeyEvent::new(KeyCode::Char('c'), KeyModifiers::control_only());
    for interact in [false, true] {
        assert_eq!(route_key(false, interact, &key(KeyCode::Char('q'))), KeyRoute::Quit);
        assert_eq!(route_key(false, interact, &ctrl_c), KeyRoute::Quit);
        assert_eq!(route_key(false, interact, &key(KeyCode::Char('r'))), KeyRoute::Reload);
        assert_eq!(route_key(false, interact, &key(KeyCode::Char('?'))), KeyRoute::ShowHelp);
    }
}

#[test]
fn normal_mode_moves_focus_and_interact_forwards() {
    assert_eq!(route_key(false, false, &key(KeyCode::Tab)), KeyRoute::FocusNext);
    assert_eq!(route_key(false, false, &key(KeyCode::BackTab)), KeyRoute::FocusPrev);
    assert_eq!(route_key(false, false, &key(KeyCode::Left)), KeyRoute::Focus(Direction::Left));
    assert_eq!(route_key(false, false, &key(KeyCode::Char('j'))), KeyRoute::ToWidget);
    assert_eq!(route_key(false, true, &key(KeyCode::Tab)), KeyRoute::ToWidget);
    assert_eq!(route_key(false, true, &key(KeyCode::Char('c'))), KeyRoute::ToWidget);
}

#[test]
fn focus_cycles_over_cells() {
    let cells = vec![(0, 0), (0, 1), (1, 1)];
    assert_eq!(focus_next(&cells, None), Some((0, 0)));
    assert_eq!(focus_next(&cells, Some((0, 1))), Some((1, 1)));
    assert_eq!(focus_next(&cells, Some((1, 1))), Some((0, 0)));
    assert_eq!(focus_prev(&cells, Some((0, 0))), Some((1, 1)));
    assert_eq!(focus_prev(&cells, Some((7, 7))), Some((0, 0)));
    assert_eq!(focus_next(&vec![], Some((3, 3))), Some((3, 3)));
}

#[test]
fn focus_next_then_prev_is_identity_on_cells() {
    let cells = vec![(0, 0), (0, 2), (1, 0), (2, 1)];
    for c in cells.iter() {
        assert_eq!(focus_prev(&cells, focus_next(&cells, Some(*c))), Some(*c));
        assert_eq!(focus_next(&cells, focus_prev(&cells, Some(*c))), Some(*c));
    }
}

#[test]
fn arrows_move_to_nearest_occupied_cell() {
    let e = engine(3, 3, vec![panel(0, 0, "cpu"), panel(0, 2, "memory"), panel(2, 0, "disk")]);
    assert_eq!(focus_direction(&e, Some((0, 0)), Direction::Right), Some((0, 2)));
    assert_eq!(focus_direction(&e, Some((0, 0)), Direction::Down), Some((2, 0)));
    assert_eq!(focus_direction(&e, Some((2, 0)), Direction::Up), Some((0, 0)));
    assert_eq!(focus_direction(&e, Some((0, 2)), Direction::Down), Some((0, 2)));
    assert_eq!(focus_direction(&e, Some((0, 0)), Direction::Left), Some((0, 0)));
    assert_eq!(focus_direction(&e, None, Direction::Left), None);
}

#[test]
fn reload_keeps_focus_on_occupied_cell() {
    let e = engine(2, 2, vec![panel(0, 1, "cpu"), panel(1, 1, "memory")]);
    let cells = e.occupied_cells();
    assert_eq!(focus_after_reload(&e, &cells, Some((1, 1))), Some((1, 1)));
    assert_eq!(focus_after_reload(&e, &cells, Some((0, 0))), Some((0, 1)));
    assert_eq!(focus_after_reload(&e, &cells, None), Some((0, 1)));
    let empty = engine(1, 1, vec![]);
    assert_eq!(focus_after_reload(&empty, &empty.occupied_cells(), Some((0, 0))), None);
}

#[test]
fn borders_and_sizes() {
    assert_eq!(border_kind(true, true), BorderKind::Interact);
    assert_eq!(border_kind(true, false), BorderKind::Focused);
    assert_eq!(border_kind(false, true), BorderKind::Normal);
    assert!(is_undersized(14, 5, (15, 1)));
    assert!(!is_undersized(15, 1, (15, 1)));
}

#[test]
fn interact_needs_a_roomy_focused_widget() {
    let undersized = vec!["memory".to_string()];
    assert!(may_enter_interact(Some("cpu"), &undersized));
    assert!(!may_enter_interact(Some("memory"), &undersized));
    assert!(!may_enter_interact(None, &undersized));
    assert!(contains_id(&undersized, "memory"));
}

#[test]
fn footer_and_notifications() {
    assert_eq!(footer_text(&Some("Saved".to_string()), false), " Saved ");
    assert_eq!(
        footer_text(&None, false),
        " q: quit | Tab/Shift+Tab: cycle focus | Arrow keys: navigate | ?: help "
    );
    assert_eq!(footer_text(&None, true), " [INTERACT] j/k: scroll | s/S: sort | x: signal | Esc: exit ");
    assert_eq!(reload_message(false), "Config reloaded");
    assert_eq!(reload_message(true), "Config reloaded (tick_rate change requires restart)");
}

#[test]
fn supervisor_backs_off_then_gives_up() {
    let mut s = Supervisor::new();
    assert!(s.listening());
    let mut waits = Vec::new();
    loop {
        match s.on_disconnect() {
            Recovery::RestartAfter(secs) => {
                waits.push(secs);
                s.on_restarted();
            }
            Recovery::GiveUp => break,
            Recovery::Expected => panic!("no reload under way"),
        }
    }
    assert_eq!(waits, vec![1, 2, 4, 8, 16]);
    assert!(s.dead);
    assert!(!s.listening());
    assert_eq!(
        recovery_message(Recovery::GiveUp).unwrap(),
        "Data source failed after 5 retries. Restart the app."
    );
}

#[test]
fn supervisor_data_resets_retries_and_reload_is_expected() {
    let mut s = Supervisor::new();
    s.on_disconnect();
    s.on_restarted();
    s.on_data();
    assert_eq!(s.retry_count, 0);
    s.restarting = true;
    assert_eq!(s.on_disconnect(), Recovery::Expected);
    assert_eq!(recovery_message(Recovery::Expected), None);
    assert_eq!(
        recovery_message(Recovery::RestartAfter(4)).unwrap(),
        "Data source disconnected, restarting in 4s..."
    );
}

#[test]
fn supervisor_waits_are_capped_at_thirty() {
    let mut s = Supervisor { retry_count: 0, max_retries: 8, dead: false, restarting: false, disconnected: false };
    let mut last = 0;
    for _ in 0..8 {
        if let Recovery::RestartAfter(secs) = s.on_disconnect() {
            last = secs;
        }
    }
    assert_eq!(last, 30);
}
