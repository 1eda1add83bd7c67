use mise_tui::config::{PanelConfig, ProfileConfig};
use mise_tui::editor::{EditAction, EditMode, PendingOp};
use mise_tui::keys::{KeyCode, KeyEvent, KeyModifiers};

fn panel(row: usize, col: usize, ty: &str) -> PanelConfig {
    PanelConfig { row, col, widget_type: ty.into(), id: None, col_span: 1, row_span: 1 }
}

fn make_layout() -> ProfileConfig {
    ProfileConfig {
        columns: 3,
        rows: 2,
        column_widths: None,
        row_heights: None,
        header: true,
        footer: true,
        panels: vec![panel(0, 0, "cpu"), panel(0, 1, "memory"), panel(1, 0, "network")],
    }
}

fn key(code: KeyCode) -> KeyEvent {
    KeyEvent::new(code, KeyModifiers::none())
}

fn key_shift(code: KeyCode) -> KeyEvent {
    KeyEvent::new(code, KeyModifiers::shift_only())
}

fn find<'a>(layout: &'a ProfileConfig, ty: &str) -> &'a PanelConfig {
    layout.panels.iter().find(|p| p.widget_type == ty).unwrap()
}

#[test]
fn test_enter_sets_initial_state() {
    let edit = EditMode::enter(make_layout());
    assert_eq!(edit.cursor(), (0, 0));
    assert!(!edit.is_dirty());
    assert!(edit.pending_op().is_none());
    assert_eq!(edit.working_layout().columns, 3);
    assert_eq!(edit.working_layout().rows, 2);
    assert_eq!(edit.working_layout().panels.len(), 3);
}

#[test]
fn test_cursor_movement() {
    let mut edit = EditMode::enter(make_layout());
    edit.handle_key(key(KeyCode::Right));
    assert_eq!(edit.cursor(), (0, 1));
    edit.handle_key(key(KeyCode::Down));
    assert_eq!(edit.cursor(), (1, 1));
    edit.handle_key(key(KeyCode::Left));
    assert_eq!(edit.cursor(), (1, 0));
    edit.handle_key(key(KeyCode::Up));
    assert_eq!(edit.cursor(), (0, 0));
}

#[test]
fn test_cursor_clamps_to_grid() {
    let mut edit = EditMode::enter(make_layout()); // 3 cols, 2 rows
    edit.handle_key(key(KeyCode::Left));
    assert_eq!(edit.cursor(), (0, 0));
    edit.handle_key(key(KeyCode::Up));
    assert_eq!(edit.cursor(), (0, 0));
    edit.handle_key(key(KeyCode::Right));
    edit.handle_key(key(KeyCode::Right));
    edit.handle_key(key(KeyCode::Down));
    assert_eq!(edit.cursor(), (1, 2));
    edit.handle_key(key(KeyCode::Right));
    assert_eq!(edit.cursor(), (1, 2));
    edit.handle_key(key(KeyCode::Down));
    assert_eq!(edit.cursor(), (1, 2));
}

#[test]
fn test_exit_clean() {
    let mut edit = EditMode::enter(make_layout());
    let action = edit.handle_key(key(KeyCode::Esc));
    assert_eq!(action, EditAction::Exit);
}

#[test]
fn test_exit_dirty_first_escape_warns() {
    let mut edit = EditMode::enter(make_layout());
    edit.handle_key(key_shift(KeyCode::Char('C')));
    assert!(edit.is_dirty());
    let action = edit.handle_key(key(KeyCode::Esc));
    assert_eq!(action, EditAction::Nothing);
    assert_eq!(edit.pending_op(), Some(&PendingOp::ConfirmingExit));
}

#[test]
fn test_exit_dirty_second_escape_exits() {
    let mut edit = EditMode::enter(make_layout());
    edit.handle_key(key_shift(KeyCode::Char('C')));
    edit.handle_key(key(KeyCode::Esc));
    assert!(edit.pending_op().is_some());
    let action = edit.handle_key(key(KeyCode::Esc));
    assert_eq!(action, EditAction::Exit);
}

#[test]
fn test_save_returns_save_action() {
    let mut edit = EditMode::enter(make_layout());
    let action = edit.handle_key(key(KeyCode::Char('s')));
    assert_eq!(action, EditAction::Nothing);
    edit.handle_key(key_shift(KeyCode::Char('C')));
    assert!(edit.is_dirty());
    let action = edit.handle_key(key(KeyCode::Char('s')));
    assert_eq!(action, EditAction::Save);
    assert!(!edit.is_dirty());
}

#[test]
fn test_add_widget_to_empty_cell() {
    let mut edit = EditMode::enter(make_layout()); // (0,2) is empty
    edit.handle_key(key(KeyCode::Right));
    edit.handle_key(key(KeyCode::Right));
    assert_eq!(edit.cursor(), (0, 2));
    edit.handle_key(key(KeyCode::Char('a')));
    assert!(matches!(edit.pending_op(), Some(PendingOp::Adding { .. })));
    // The types list is sorted; "cpu" is at index 0
    let action = edit.handle_key(key(KeyCode::Enter));
    match action {
        EditAction::LayoutChanged { ref added_widget, ref removed_widget, .. } => {
            // "cpu" already exists, so the new one is "cpu_2"
            assert_eq!(added_widget, &Some(("cpu_2".to_string(), "cpu".to_string())));
            assert_eq!(removed_widget, &None);
        }
        _ => panic!("expected LayoutChanged, got {:?}", action),
    }
    assert!(edit.is_dirty());
    assert_eq!(edit.working_layout().panels.len(), 4);
}

#[test]
fn test_add_widget_to_occupied_cell_does_nothing() {
    let mut edit = EditMode::enter(make_layout());
    let action = edit.handle_key(key(KeyCode::Char('a')));
    assert_eq!(action, EditAction::Nothing);
    assert!(edit.pending_op().is_none());
}

#[test]
fn test_add_widget_cancel_with_escape() {
    let mut edit = EditMode::enter(make_layout());
    edit.handle_key(key(KeyCode::Right));
    edit.handle_key(key(KeyCode::Right));
    edit.handle_key(key(KeyCode::Char('a')));
    assert!(edit.pending_op().is_some());
    edit.handle_key(key(KeyCode::Esc));
    assert!(edit.pending_op().is_none());
    assert_eq!(edit.working_layout().panels.len(), 3);
}

#[test]
fn test_delete_widget() {
    let mut edit = EditMode::enter(make_layout());
    edit.handle_key(key(KeyCode::Char('d')));
    assert!(matches!(edit.pending_op(), Some(PendingOp::ConfirmingDelete { .. })));
    let action = edit.handle_key(key(KeyCode::Char('y')));
    match action {
        EditAction::LayoutChanged { ref removed_widget, .. } => {
            assert_eq!(removed_widget, &Some("cpu".to_string()));
        }
        _ => panic!("expected LayoutChanged, got {:?}", action),
    }
    assert!(edit.is_dirty());
    assert_eq!(edit.working_layout().panels.len(), 2);
}

#[test]
fn test_delete_empty_cell_does_nothing() {
    let mut edit = EditMode::enter(make_layout());
    edit.handle_key(key(KeyCode::Right));
    edit.handle_key(key(KeyCode::Right));
    let action = edit.handle_key(key(KeyCode::Char('d')));
    assert_eq!(action, EditAction::Nothing);
    assert!(edit.pending_op().is_none());
}

#[test]
fn test_delete_cancel_with_n() {
    let mut edit = EditMode::enter(make_layout());
    edit.handle_key(key(KeyCode::Char('d')));
    assert!(edit.pending_op().is_some());
    let action = edit.handle_key(key(KeyCode::Char('n')));
    assert_eq!(action, EditAction::Nothing);
    assert!(edit.pending_op().is_none());
    assert_eq!(edit.working_layout().panels.len(), 3);
}

#[test]
fn test_move_widget() {
    let mut edit = EditMode::enter(make_layout());
    edit.handle_key(key(KeyCode::Char('m')));
    assert!(matches!(edit.pending_op(), Some(PendingOp::Moving { from: (0, 0) })));
    edit.handle_key(key(KeyCode::Right));
    edit.handle_key(key(KeyCode::Right));
    let action = edit.handle_key(key(KeyCode::Enter));
    match action {
        EditAction::LayoutChanged { ref layout, .. } => {
            let cpu = find(layout, "cpu");
            assert_eq!(cpu.row, 0);
            assert_eq!(cpu.col, 2);
        }
        _ => panic!("expected LayoutChanged, got {:?}", action),
    }
    assert!(edit.is_dirty());
}

#[test]
fn test_swap_widgets() {
    let mut edit = EditMode::enter(make_layout());
    edit.handle_key(key(KeyCode::Char('x')));
    assert!(matches!(edit.pending_op(), Some(PendingOp::Swapping { from: (0, 0) })));
    edit.handle_key(key(KeyCode::Right));
    let action = edit.handle_key(key(KeyCode::Enter));
    match action {
        EditAction::LayoutChanged { ref layout, .. } => {
            let cpu = find(layout, "cpu");
            let mem = find(layout, "memory");
            assert_eq!((cpu.row, cpu.col), (0, 1));
            assert_eq!((mem.row, mem.col), (0, 0));
        }
        _ => panic!("expected LayoutChanged, got {:?}", action),
    }
    assert!(edit.is_dirty());
}

#[test]
fn test_resize_col_span_grow() {
    let mut layout = make_layout();
    layout.panels.retain(|p| p.widget_type != "memory");
    let mut edit = EditMode::enter(layout);
    let action = edit.handle_key(key(KeyCode::Char('+')));
    match action {
        EditAction::LayoutChanged { ref layout, .. } => {
            assert_eq!(find(layout, "cpu").col_span, 2);
        }
        _ => panic!("expected LayoutChanged, got {:?}", action),
    }
}

#[test]
fn test_resize_col_span_shrink() {
    let mut layout = make_layout();
    layout.panels[0].col_span = 2;
    layout.panels.retain(|p| p.widget_type != "memory");
    let mut edit = EditMode::enter(layout);
    let action = edit.handle_key(key(KeyCode::Char('-')));
    match action {
        EditAction::LayoutChanged { ref layout, .. } => {
            assert_eq!(find(layout, "cpu").col_span, 1);
        }
        _ => panic!("expected LayoutChanged, got {:?}", action),
    }
}

#[test]
fn test_resize_cant_shrink_below_one() {
    let mut edit = EditMode::enter(make_layout());
    let action = edit.handle_key(key(KeyCode::Char('-')));
    assert_eq!(action, EditAction::Nothing);
}

#[test]
fn test_resize_cant_grow_beyond_grid() {
    let mut edit = EditMode::enter(make_layout()); // 3 columns
    edit.handle_key(key(KeyCode::Right));
    let action = edit.handle_key(key(KeyCode::Char('+')));
    assert!(matches!(action, EditAction::LayoutChanged { .. }));
    let action = edit.handle_key(key(KeyCode::Char('+')));
    assert_eq!(action, EditAction::Nothing);
}

#[test]
fn test_add_column() {
    let mut edit = EditMode::enter(make_layout());
    let action = edit.handle_key(key_shift(KeyCode::Char('C')));
    match action {
        EditAction::LayoutChanged { ref layout, .. } => assert_eq!(layout.columns, 4),
        _ => panic!("expected LayoutChanged, got {:?}", action),
    }
    assert!(edit.is_dirty());
}

#[test]
fn test_add_row() {
    let mut edit = EditMode::enter(make_layout());
    let action = edit.handle_key(key_shift(KeyCode::Char('R')));
    match action {
        EditAction::LayoutChanged { ref layout, .. } => assert_eq!(layout.rows, 3),
        _ => panic!("expected LayoutChanged, got {:?}", action),
    }
    assert!(edit.is_dirty());
}

#[test]
fn test_remove_empty_last_column() {
    let mut edit = EditMode::enter(make_layout());
    let action = edit.handle_key(key(KeyCode::Char('c')));
    match action {
        EditAction::LayoutChanged { ref layout, .. } => assert_eq!(layout.columns, 2),
        _ => panic!("expected LayoutChanged, got {:?}", action),
    }
}

#[test]
fn test_remove_occupied_last_column_fails() {
    let mut layout = make_layout();
    layout.panels.push(panel(0, 2, "disk"));
    let mut edit = EditMode::enter(layout);
    let action = edit.handle_key(key(KeyCode::Char('c')));
    assert_eq!(action, EditAction::Nothing);
    assert_eq!(edit.working_layout().columns, 3);
}

#[test]
fn test_undo_reverses_last_action() {
    let mut edit = EditMode::enter(make_layout());
    let original_cols = edit.working_layout().columns;
    edit.handle_key(key_shift(KeyCode::Char('C')));
    assert_eq!(edit.working_layout().columns, original_cols + 1);
    let action = edit.handle_key(key(KeyCode::Char('u')));
    match action {
        EditAction::LayoutChanged { ref layout, .. } => assert_eq!(layout.columns, original_cols),
        _ => panic!("expected LayoutChanged, got {:?}", action),
    }
}

#[test]
fn test_undo_with_no_history_does_nothing() {
    let mut edit = EditMode::enter(make_layout());
    let action = edit.handle_key(key(KeyCode::Char('u')));
    assert_eq!(action, EditAction::Nothing);
}

// -- further cases --

#[test]
fn undo_restores_deleted_widget() {
    let mut edit = EditMode::enter(make_layout());
    edit.handle_key(key(KeyCode::Char('d')));
    edit.handle_key(key(KeyCode::Char('y')));
    assert_eq!(edit.working_layout().panels.len(), 2);
    edit.handle_key(key(KeyCode::Char('u')));
    assert_eq!(edit.working_layout(), &make_layout());
    // Only one step of history.
    assert_eq!(edit.handle_key(key(KeyCode::Char('u'))), EditAction::Nothing);
}

#[test]
fn add_picks_type_by_navigation() {
    let mut edit = EditMode::enter(make_layout());
    edit.handle_key(key(KeyCode::Right));
    edit.handle_key(key(KeyCode::Right));
    edit.handle_key(key(KeyCode::Char('a')));
    edit.handle_key(key(KeyCode::Down)); // "disk"
    let action = edit.handle_key(key(KeyCode::Enter));
    match action {
        EditAction::LayoutChanged { added_widget, .. } => {
            assert_eq!(added_widget, Some(("disk".to_string(), "disk".to_string())));
        }
        _ => panic!("expected LayoutChanged"),
    }
    assert!(edit.working_layout().panels.iter().any(|p| p.widget_type == "disk" && p.col == 2));
}

#[test]
fn cursor_moves_while_confirming_exit_cancels_it() {
    let mut edit = EditMode::enter(make_layout());
    edit.handle_key(key_shift(KeyCode::Char('R')));
    edit.handle_key(key(KeyCode::Esc));
    assert_eq!(edit.pending_op(), Some(&PendingOp::ConfirmingExit));
    let action = edit.handle_key(key(KeyCode::Char('q')));
    assert_eq!(action, EditAction::Nothing);
    assert!(edit.pending_op().is_none());
}

#[test]
fn within_limits_on_ordinary_layout() {
    let edit = EditMode::enter(make_layout());
    assert!(edit.within_limits());
}

#[test]
fn huge_span_resizes_through_its_wrapped_i32_value() {
    // 2^32 + 3 becomes 3 as an i32, so growing sets the span to 4.
    let span: usize = (1usize << 32) + 3;
    let layout = ProfileConfig {
        columns: span + 10,
        rows: 1,
        column_widths: None,
        row_heights: None,
        header: true,
        footer: true,
        panels: vec![PanelConfig { col_span: span, ..panel(0, 0, "cpu") }],
    };
    let mut edit = EditMode::enter(layout);
    assert!(edit.within_limits());
    let action = edit.handle_key(key(KeyCode::Char('+')));
    assert!(matches!(action, EditAction::LayoutChanged { .. }));
    assert_eq!(edit.working_layout().panels[0].col_span, 4);
}

#[test]
fn span_at_i32_max_is_outside_the_limits() {
    let layout = ProfileConfig {
        columns: 1usize << 32,
        rows: 1,
        column_widths: None,
        row_heights: None,
        header: true,
        footer: true,
        panels: vec![PanelConfig { col_span: i32::MAX as usize, ..panel(0, 0, "cpu") }],
    };
    let edit = EditMode::enter(layout);
    assert!(!edit.within_limits());
}
