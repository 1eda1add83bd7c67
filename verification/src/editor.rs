//! The interactive layout editor: a cursor on the grid, pending two-step
//! operations (add, delete, move, swap, confirm exit), one level of undo,
//! and a dirty flag. Each key press is one step of a state machine.
use vstd::prelude::*;

use crate::config::{
    PanelConfig, PanelView, ProfileConfig, ProfileView, covers, first_claimer, instance_id_of,
    panels_view, strings_view,
};
use crate::keys::{KeyCode, KeyEvent};
use crate::registry::{known_type_names, known_types};
use crate::text::{dec, lemma_dec_injective, push_dec, string_from_chars, str_eq, chars_of};
use crate::theme::clone_opt_string;

verus! {

broadcast use vstd::string::group_string_axioms;

// ─── Types ───────────────────────────────────────────────────────────────────

#[derive(Debug, PartialEq)]
pub enum EditAction {
    LayoutChanged {
        layout: ProfileConfig,
        /// (instance_id, widget_type)
        added_widget: Option<(String, String)>,
        /// instance_id
        removed_widget: Option<String>,
    },
    Save,
    Exit,
    Nothing,
}

#[derive(Debug, PartialEq)]
pub enum PendingOp {
    Moving { from: (usize, usize) },
    Swapping { from: (usize, usize) },
    Adding { selected_index: usize, types: Vec<String> },
    ConfirmingDelete { widget_type: String },
    ConfirmingExit,
}

#[derive(Debug)]
struct UndoSnapshot {
    layout: ProfileConfig,
    added_widget_config: Option<String>,
}

#[derive(Debug)]
pub struct EditMode {
    working_layout: ProfileConfig,
    cursor: (usize, usize),
    pending_op: Option<PendingOp>,
    undo_state: Option<UndoSnapshot>,
    dirty: bool,
}

// ─── Mathematical model ──────────────────────────────────────────────────────

pub enum PendingView {
    Moving { from: (usize, usize) },
    Swapping { from: (usize, usize) },
    Adding { selected_index: usize, types: Seq<Seq<char>> },
    ConfirmingDelete { widget_type: Seq<char> },
    ConfirmingExit,
}

pub enum EditActionView {
    LayoutChanged { layout: ProfileView, added_widget: Option<(Seq<char>, Seq<char>)>, removed_widget: Option<Seq<char>> },
    Save,
    Exit,
    Nothing,
}

/// The editor's state: working layout, cursor, pending operation, the layout
/// undo would restore, and whether there are unsaved changes.
pub struct EditState {
    pub layout: ProfileView,
    pub cursor: (usize, usize),
    pub pending: Option<PendingView>,
    pub undo: Option<ProfileView>,
    pub dirty: bool,
}

impl View for PendingOp {
    type V = PendingView;

    open spec fn view(&self) -> PendingView {
        match self {
            PendingOp::Moving { from } => PendingView::Moving { from: *from },
            PendingOp::Swapping { from } => PendingView::Swapping { from: *from },
            PendingOp::Adding { selected_index, types } => PendingView::Adding {
                selected_index: *selected_index,
                types: strings_view(types@),
            },
            PendingOp::ConfirmingDelete { widget_type } => PendingView::ConfirmingDelete { widget_type: widget_type@ },
            PendingOp::ConfirmingExit => PendingView::ConfirmingExit,
        }
    }
}

impl View for EditAction {
    type V = EditActionView;

    open spec fn view(&self) -> EditActionView {
        match self {
            EditAction::LayoutChanged { layout, added_widget, removed_widget } => EditActionView::LayoutChanged {
                layout: layout@,
                added_widget: match added_widget {
                    Some(p) => Some((p.0@, p.1@)),
                    None => None,
                },
                removed_widget: match removed_widget {
                    Some(s) => Some(s@),
                    None => None,
                },
            },
            EditAction::Save => EditActionView::Save,
            EditAction::Exit => EditActionView::Exit,
            EditAction::Nothing => EditActionView::Nothing,
        }
    }
}

impl View for EditMode {
    type V = EditState;

    closed spec fn view(&self) -> EditState {
        EditState {
            layout: self.working_layout@,
            cursor: self.cursor,
            pending: match self.pending_op {
                Some(op) => Some(op@),
                None => None,
            },
            undo: match self.undo_state {
                Some(u) => Some(u.layout@),
                None => None,
            },
            dirty: self.dirty,
        }
    }
}

/// The index of the panel covering cell `(r, c)`: the first one in the list.
pub open spec fn panel_at(l: ProfileView, r: int, c: int) -> Option<int> {
    first_claimer(l.panels, l.panels.len() as int, r, c)
}

/// No panel but `idx` covers cell `(r, c)`.
pub open spec fn cell_empty_excluding(l: ProfileView, r: int, c: int, idx: int) -> bool {
    forall|i: int| 0 <= i < l.panels.len() && i != idx ==> !covers(#[trigger] l.panels[i], r, c)
}

/// Arithmetic on the layout and cursor stays far from the limits of the
/// machine integers the editor computes with.
/// A span as the `i32` that `as` makes of it (wrapping past `i32::MAX`).
pub open spec fn span_i32(x: usize) -> int {
    (x as i32) as int
}

proof fn lemma_span_i32(x: usize)
    ensures
        x <= i32::MAX ==> span_i32(x) == x,
        span_i32(x) <= x,
        i32::MIN <= span_i32(x) <= i32::MAX,
{
    if x <= i32::MAX {
        assert((x as i32) as int == x as int) by (bit_vector)
            requires
                x <= 0x7fff_ffffusize,
        ;
    }
}

/// The key undoes the last change: `u` with no operation pending.
pub open spec fn is_undo_key(s: EditState, code: KeyCode) -> bool {
    s.pending is None && code == KeyCode::Char('u')
}

pub open spec fn in_range(s: EditState) -> bool {
    &&& s.layout.panels.len() < usize::MAX
    &&& s.layout.rows < usize::MAX
    &&& s.layout.columns < usize::MAX
    &&& s.cursor.0 < usize::MAX
    &&& s.cursor.1 < usize::MAX
    &&& forall|i: int|
        0 <= i < s.layout.panels.len() ==> {
            let p = #[trigger] s.layout.panels[i];
            &&& i32::MIN < span_i32(p.row_span) < i32::MAX
            &&& i32::MIN < span_i32(p.col_span) < i32::MAX
            &&& p.row + p.row_span + 1 <= usize::MAX
            &&& p.col + p.col_span + 1 <= usize::MAX
        }
}

/// A pending add always selects one of its offered types.
pub open spec fn pending_ok(s: EditState) -> bool {
    s.pending matches Some(PendingView::Adding { selected_index, types }) ==> selected_index < types.len()
}

pub open spec fn move_cursor(s: EditState, code: KeyCode) -> (usize, usize) {
    let (r, c) = s.cursor;
    match code {
        KeyCode::Up => if r > 0 { ((r - 1) as usize, c) } else { (r, c) },
        KeyCode::Down => if r + 1 < s.layout.rows { ((r + 1) as usize, c) } else { (r, c) },
        KeyCode::Left => if c > 0 { (r, (c - 1) as usize) } else { (r, c) },
        KeyCode::Right => if c + 1 < s.layout.columns { (r, (c + 1) as usize) } else { (r, c) },
        _ => (r, c),
    }
}

pub open spec fn is_arrow(code: KeyCode) -> bool {
    code == KeyCode::Up || code == KeyCode::Down || code == KeyCode::Left || code == KeyCode::Right
}

/// The state after a layout change: the old layout saved for undo, the new
/// one in place, and unsaved changes.
pub open spec fn changed(s: EditState, layout: ProfileView) -> EditState {
    EditState { layout, undo: Some(s.layout), dirty: true, ..s }
}

pub open spec fn changed_action(layout: ProfileView) -> EditActionView {
    EditActionView::LayoutChanged { layout, added_widget: None, removed_widget: None }
}

pub open spec fn with_panel(l: ProfileView, idx: int, p: PanelView) -> ProfileView {
    ProfileView { panels: l.panels.update(idx, p), ..l }
}

/// No panel but `idx` covers a cell of rows `r0..r1`, columns `c0..c1`.
pub open spec fn cols_free(l: ProfileView, idx: int, r0: int, r1: int, c0: int, c1: int) -> bool {
    forall|r: int, c: int| r0 <= r < r1 && c0 <= c < c1 ==> #[trigger] cell_empty_excluding(l, r, c, idx)
}

/// Growing or shrinking the column span of the panel under the cursor.
pub open spec fn resize_cols(s: EditState, grow: bool) -> (EditState, EditActionView) {
    match panel_at(s.layout, s.cursor.0 as int, s.cursor.1 as int) {
        None => (s, EditActionView::Nothing),
        Some(idx) => {
            let p = s.layout.panels[idx];
            let new_span: int = if grow { span_i32(p.col_span) + 1 } else { span_i32(p.col_span) - 1 };
            if new_span < 1 || p.col + new_span > s.layout.columns {
                (s, EditActionView::Nothing)
            } else if grow && !cols_free(s.layout, idx, p.row as int, p.row + p.row_span, p.col + p.col_span, p.col + new_span) {
                (s, EditActionView::Nothing)
            } else {
                let l = with_panel(s.layout, idx, PanelView { col_span: new_span as usize, ..p });
                (changed(s, l), changed_action(l))
            }
        },
    }
}

/// Growing or shrinking the row span of the panel under the cursor.
pub open spec fn resize_rows(s: EditState, grow: bool) -> (EditState, EditActionView) {
    match panel_at(s.layout, s.cursor.0 as int, s.cursor.1 as int) {
        None => (s, EditActionView::Nothing),
        Some(idx) => {
            let p = s.layout.panels[idx];
            let new_span: int = if grow { span_i32(p.row_span) + 1 } else { span_i32(p.row_span) - 1 };
            if new_span < 1 || p.row + new_span > s.layout.rows {
                (s, EditActionView::Nothing)
            } else if grow && !cols_free(s.layout, idx, p.row + p.row_span, p.row + new_span, p.col as int, p.col + p.col_span) {
                (s, EditActionView::Nothing)
            } else {
                let l = with_panel(s.layout, idx, PanelView { row_span: new_span as usize, ..p });
                (changed(s, l), changed_action(l))
            }
        },
    }
}

/// Some panel reaches into the last column (or row, for `rows`).
pub open spec fn last_line_occupied(l: ProfileView, rows: bool) -> bool {
    exists|i: int|
        0 <= i < l.panels.len() && if rows {
            (#[trigger] l.panels[i]).row + l.panels[i].row_span > l.rows - 1
        } else {
            l.panels[i].col + l.panels[i].col_span > l.columns - 1
        }
}

pub open spec fn remove_last_column(s: EditState) -> (EditState, EditActionView) {
    if s.layout.columns <= 1 || last_line_occupied(s.layout, false) {
        (s, EditActionView::Nothing)
    } else {
        let l = ProfileView { columns: (s.layout.columns - 1) as usize, ..s.layout };
        let cursor = if s.cursor.1 >= l.columns { (s.cursor.0, (l.columns - 1) as usize) } else { s.cursor };
        (EditState { cursor, ..changed(s, l) }, changed_action(l))
    }
}

pub open spec fn remove_last_row(s: EditState) -> (EditState, EditActionView) {
    if s.layout.rows <= 1 || last_line_occupied(s.layout, true) {
        (s, EditActionView::Nothing)
    } else {
        let l = ProfileView { rows: (s.layout.rows - 1) as usize, ..s.layout };
        let cursor = if s.cursor.0 >= l.rows { ((l.rows - 1) as usize, s.cursor.1) } else { s.cursor };
        (EditState { cursor, ..changed(s, l) }, changed_action(l))
    }
}

/// The instance ids of the panels.
pub open spec fn existing_ids(l: ProfileView) -> Seq<Seq<char>> {
    l.panels.map_values(|p: PanelView| instance_id_of(p))
}

/// The `n`-th candidate id for a widget type: `type_n`.
pub open spec fn candidate_id(t: Seq<char>, n: nat) -> Seq<char> {
    t + seq!['_'] + dec(n)
}

/// The id a new widget of type `t` gets: `t` itself if no panel uses it,
/// otherwise `t_n` for the smallest `n >= 2` that no panel uses.
pub open spec fn is_generated_id(l: ProfileView, t: Seq<char>, id: Seq<char>) -> bool {
    if !existing_ids(l).contains(t) {
        id == t
    } else {
        exists|n: nat|
            #![trigger candidate_id(t, n)]
            n >= 2 && id == candidate_id(t, n) && !existing_ids(l).contains(candidate_id(t, n)) && forall|m: nat|
                2 <= m < n ==> existing_ids(l).contains(#[trigger] candidate_id(t, m))
    }
}

/// A step of a pending add.
pub open spec fn adding_step(s: EditState, code: KeyCode, sel: usize, types: Seq<Seq<char>>, new_id: Seq<char>) -> (EditState, EditActionView) {
    match code {
        KeyCode::Up => (
            EditState {
                pending: Some(PendingView::Adding { selected_index: if sel > 0 { (sel - 1) as usize } else { sel }, types }),
                ..s
            },
            EditActionView::Nothing,
        ),
        KeyCode::Down => (
            EditState {
                pending: Some(
                    PendingView::Adding {
                        selected_index: if sel + 1 < types.len() { (sel + 1) as usize } else { sel },
                        types,
                    },
                ),
                ..s
            },
            EditActionView::Nothing,
        ),
        KeyCode::Enter => {
            let t = types[sel as int];
            let p = PanelView { row: s.cursor.0, col: s.cursor.1, widget_type: t, id: Some(new_id), col_span: 1, row_span: 1 };
            let l = ProfileView { panels: s.layout.panels.push(p), ..s.layout };
            (
                EditState { pending: None, ..changed(s, l) },
                EditActionView::LayoutChanged { layout: l, added_widget: Some((new_id, t)), removed_widget: None },
            )
        },
        KeyCode::Esc => (EditState { pending: None, ..s }, EditActionView::Nothing),
        _ => (s, EditActionView::Nothing),
    }
}

pub open spec fn delete_step(s: EditState, code: KeyCode) -> (EditState, EditActionView) {
    if code == KeyCode::Char('y') {
        match panel_at(s.layout, s.cursor.0 as int, s.cursor.1 as int) {
            Some(idx) => {
                let l = ProfileView { panels: s.layout.panels.remove(idx), ..s.layout };
                (
                    EditState { pending: None, ..changed(s, l) },
                    EditActionView::LayoutChanged {
                        layout: l,
                        added_widget: None,
                        removed_widget: Some(instance_id_of(s.layout.panels[idx])),
                    },
                )
            },
            None => (EditState { pending: None, ..s }, EditActionView::Nothing),
        }
    } else {
        (EditState { pending: None, ..s }, EditActionView::Nothing)
    }
}

pub open spec fn move_step(s: EditState, code: KeyCode, from: (usize, usize)) -> (EditState, EditActionView) {
    if is_arrow(code) {
        (EditState { cursor: move_cursor(s, code), ..s }, EditActionView::Nothing)
    } else if code == KeyCode::Enter {
        let target = s.cursor;
        if target == from {
            (EditState { pending: None, ..s }, EditActionView::Nothing)
        } else if panel_at(s.layout, target.0 as int, target.1 as int) is Some {
            (s, EditActionView::Nothing)
        } else {
            match panel_at(s.layout, from.0 as int, from.1 as int) {
                Some(idx) => {
                    let p = s.layout.panels[idx];
                    let l = with_panel(s.layout, idx, PanelView { row: target.0, col: target.1, ..p });
                    (EditState { pending: None, ..changed(s, l) }, changed_action(l))
                },
                None => (EditState { pending: None, ..s }, EditActionView::Nothing),
            }
        }
    } else if code == KeyCode::Esc {
        (EditState { pending: None, ..s }, EditActionView::Nothing)
    } else {
        (s, EditActionView::Nothing)
    }
}

pub open spec fn swap_step(s: EditState, code: KeyCode, from: (usize, usize)) -> (EditState, EditActionView) {
    if is_arrow(code) {
        (EditState { cursor: move_cursor(s, code), ..s }, EditActionView::Nothing)
    } else if code == KeyCode::Enter {
        let target = s.cursor;
        if target == from {
            (EditState { pending: None, ..s }, EditActionView::Nothing)
        } else {
            match (panel_at(s.layout, from.0 as int, from.1 as int), panel_at(s.layout, target.0 as int, target.1 as int)) {
                (Some(fi), Some(ti)) => {
                    let pf = s.layout.panels[fi];
                    let pt = s.layout.panels[ti];
                    let panels1 = s.layout.panels.update(fi, PanelView { row: pt.row, col: pt.col, ..pf });
                    let panels2 = panels1.update(ti, PanelView { row: pf.row, col: pf.col, ..panels1[ti] });
                    let l = ProfileView { panels: panels2, ..s.layout };
                    (EditState { pending: None, ..changed(s, l) }, changed_action(l))
                },
                _ => (s, EditActionView::Nothing),
            }
        }
    } else if code == KeyCode::Esc {
        (EditState { pending: None, ..s }, EditActionView::Nothing)
    } else {
        (s, EditActionView::Nothing)
    }
}

/// A key press while an operation is pending. `new_id` is the id an add
/// would give the selected type.
pub open spec fn pending_step(s: EditState, code: KeyCode, new_id: Seq<char>) -> (EditState, EditActionView) {
    match s.pending {
        Some(PendingView::Adding { selected_index, types }) => adding_step(s, code, selected_index, types, new_id),
        Some(PendingView::ConfirmingDelete { .. }) => delete_step(s, code),
        Some(PendingView::Moving { from }) => move_step(s, code, from),
        Some(PendingView::Swapping { from }) => swap_step(s, code, from),
        Some(PendingView::ConfirmingExit) => if code == KeyCode::Esc {
            (EditState { pending: None, ..s }, EditActionView::Exit)
        } else {
            (EditState { pending: None, ..s }, EditActionView::Nothing)
        },
        None => (s, EditActionView::Nothing),
    }
}

/// A key press with no operation pending.
pub open spec fn idle_step(s: EditState, code: KeyCode) -> (EditState, EditActionView) {
    let here = panel_at(s.layout, s.cursor.0 as int, s.cursor.1 as int);
    if is_arrow(code) {
        (EditState { cursor: move_cursor(s, code), ..s }, EditActionView::Nothing)
    } else if code == KeyCode::Esc {
        if s.dirty {
            (EditState { pending: Some(PendingView::ConfirmingExit), ..s }, EditActionView::Nothing)
        } else {
            (s, EditActionView::Exit)
        }
    } else if code == KeyCode::Char('s') {
        if s.dirty {
            (EditState { dirty: false, ..s }, EditActionView::Save)
        } else {
            (s, EditActionView::Nothing)
        }
    } else if code == KeyCode::Char('a') {
        if here is Some {
            (s, EditActionView::Nothing)
        } else {
            (
                EditState { pending: Some(PendingView::Adding { selected_index: 0, types: known_type_names() }), ..s },
                EditActionView::Nothing,
            )
        }
    } else if code == KeyCode::Char('d') {
        match here {
            Some(i) => (
                EditState {
                    pending: Some(PendingView::ConfirmingDelete { widget_type: s.layout.panels[i].widget_type }),
                    ..s
                },
                EditActionView::Nothing,
            ),
            None => (s, EditActionView::Nothing),
        }
    } else if code == KeyCode::Char('m') {
        if here is Some {
            (EditState { pending: Some(PendingView::Moving { from: s.cursor }), ..s }, EditActionView::Nothing)
        } else {
            (s, EditActionView::Nothing)
        }
    } else if code == KeyCode::Char('x') {
        if here is Some {
            (EditState { pending: Some(PendingView::Swapping { from: s.cursor }), ..s }, EditActionView::Nothing)
        } else {
            (s, EditActionView::Nothing)
        }
    } else if code == KeyCode::Char('+') {
        resize_cols(s, true)
    } else if code == KeyCode::Char('-') {
        resize_cols(s, false)
    } else if code == KeyCode::Char('>') {
        resize_rows(s, true)
    } else if code == KeyCode::Char('<') {
        resize_rows(s, false)
    } else if code == KeyCode::Char('C') {
        let l = ProfileView { columns: (s.layout.columns + 1) as usize, ..s.layout };
        (changed(s, l), changed_action(l))
    } else if code == KeyCode::Char('c') {
        remove_last_column(s)
    } else if code == KeyCode::Char('R') {
        let l = ProfileView { rows: (s.layout.rows + 1) as usize, ..s.layout };
        (changed(s, l), changed_action(l))
    } else if code == KeyCode::Char('r') {
        remove_last_row(s)
    } else if code == KeyCode::Char('u') {
        match s.undo {
            Some(l) => (EditState { layout: l, undo: None, dirty: true, ..s }, changed_action(l)),
            None => (s, EditActionView::Nothing),
        }
    } else {
        (s, EditActionView::Nothing)
    }
}

/// One key press: `new_id` is the id a pending add would give the selected type.
pub open spec fn edit_step(s: EditState, code: KeyCode, new_id: Seq<char>) -> (EditState, EditActionView) {
    if s.pending is Some {
        pending_step(s, code, new_id)
    } else {
        idle_step(s, code)
    }
}

/// The id an add would give: what `is_generated_id` allows for the selected
/// type (any id when no add is pending).
pub open spec fn add_id_ok(s: EditState, code: KeyCode, new_id: Seq<char>) -> bool {
    match s.pending {
        Some(PendingView::Adding { selected_index, types }) => code == KeyCode::Enter ==> is_generated_id(
            s.layout,
            types[selected_index as int],
            new_id,
        ),
        _ => true,
    }
}


// ─── Instance ids ────────────────────────────────────────────────────────────

proof fn lemma_candidate_injective(t: Seq<char>, a: nat, b: nat)
    ensures
        candidate_id(t, a) == candidate_id(t, b) ==> a == b,
        candidate_id(t, a) != t,
{
    crate::text::lemma_dec_value(a);
    let ca = candidate_id(t, a);
    let cb = candidate_id(t, b);
    assert(ca.subrange(t.len() as int + 1, ca.len() as int) =~= dec(a));
    assert(cb.subrange(t.len() as int + 1, cb.len() as int) =~= dec(b));
    lemma_dec_injective(a, b);
    assert(ca.len() > t.len());
}

/// When `t` and its candidates `t_2 .. t_(n-1)` are all among `ids`, there
/// are at least `n - 1` distinct ids.
proof fn lemma_candidates_bound(ids: Seq<Seq<char>>, t: Seq<char>, n: nat)
    requires
        n >= 2,
        ids.contains(t),
        forall|m: nat| 2 <= m < n ==> ids.contains(#[trigger] candidate_id(t, m)),
    ensures
        n <= ids.len() + 1,
{
    broadcast use vstd::set::group_set_axioms;
    broadcast use vstd::seq_lib::seq_to_set_is_finite;
    let k = (n - 2) as nat;
    let s = Seq::new(k, |i: int| candidate_id(t, (i + 2) as nat)).push(t);
    assert forall|i: int, j: int| 0 <= i < s.len() && 0 <= j < s.len() && i != j implies s[i] != s[j] by {
        if i < k && j < k {
            lemma_candidate_injective(t, (i + 2) as nat, (j + 2) as nat);
        } else if i < k {
            lemma_candidate_injective(t, (i + 2) as nat, 0);
        } else {
            lemma_candidate_injective(t, (j + 2) as nat, 0);
        }
    }
    assert(s.no_duplicates());
    s.unique_seq_to_set();
    assert forall|x: Seq<char>| s.to_set().contains(x) implies ids.to_set().contains(x) by {
        assert(s.contains(x));
        let i = choose|i: int| 0 <= i < s.len() && s[i] == x;
        if i < k {
            assert(s[i] == candidate_id(t, (i + 2) as nat));
        }
        assert(ids.contains(x));
    }
    ids.lemma_cardinality_of_set();
    vstd::set_lib::lemma_len_subset(s.to_set(), ids.to_set());
}

fn instance_ids(panels: &Vec<PanelConfig>) -> (r: Vec<String>)
    ensures
        strings_view(r@) == panels_view(panels@).map_values(|p: PanelView| instance_id_of(p)),
{
    let mut r: Vec<String> = Vec::new();
    let mut i: usize = 0;
    while i < panels.len()
        invariant
            i <= panels.len(),
            r@.len() == i,
            forall|j: int| 0 <= j < i ==> (#[trigger] r@[j])@ == instance_id_of(panels@[j]@),
        decreases panels.len() - i,
    {
        r.push(panels[i].instance_id().to_string());
        i += 1;
    }
    assert(strings_view(r@) =~= panels_view(panels@).map_values(|p: PanelView| instance_id_of(p)));
    r
}

fn contains_str(v: &Vec<String>, s: &str) -> (r: bool)
    ensures
        r == strings_view(v@).contains(s@),
{
    let mut i: usize = 0;
    while i < v.len()
        invariant
            i <= v.len(),
            forall|j: int| 0 <= j < i ==> (#[trigger] v@[j])@ != s@,
        decreases v.len() - i,
    {
        if str_eq(v[i].as_str(), s) {
            assert(strings_view(v@)[i as int] == s@);
            return true;
        }
        i += 1;
    }
    assert forall|j: int| 0 <= j < strings_view(v@).len() implies strings_view(v@)[j] != s@ by {
        assert(strings_view(v@)[j] == v@[j]@);
    }
    false
}

fn candidate_string(t: &str, n: u64) -> (r: String)
    ensures
        r@ == candidate_id(t@, n as nat),
{
    let mut v = chars_of(t);
    v.push('_');
    push_dec(&mut v, n);
    assert(v@ =~= candidate_id(t@, n as nat));
    string_from_chars(&v)
}

// ─── The editor ──────────────────────────────────────────────────────────────

impl EditMode {
    /// Starts editing `layout`: cursor at the top-left cell, nothing pending,
    /// nothing to undo, no unsaved changes.
    pub fn enter(layout: ProfileConfig) -> (r: Self)
        ensures
            r@ == (EditState { layout: layout@, cursor: (0, 0), pending: None, undo: None, dirty: false }),
    {
        EditMode { working_layout: layout, cursor: (0, 0), pending_op: None, undo_state: None, dirty: false }
    }

    pub fn cursor(&self) -> (r: (usize, usize))
        ensures
            r == self@.cursor,
    {
        self.cursor
    }

    pub fn is_dirty(&self) -> (r: bool)
        ensures
            r == self@.dirty,
    {
        self.dirty
    }

    pub fn pending_op(&self) -> (r: Option<&PendingOp>)
        ensures
            match r {
                Some(op) => self@.pending == Some(op@),
                None => self@.pending is None,
            },
    {
        self.pending_op.as_ref()
    }

    pub fn working_layout(&self) -> (r: &ProfileConfig)
        ensures
            r@ == self@.layout,
    {
        &self.working_layout
    }

    /// The operations of the editor can be applied to this state without
    /// reaching the limits of machine integers.
    pub fn within_limits(&self) -> (r: bool)
        ensures
            r == in_range(self@),
    {
        let l = &self.working_layout;
        if l.panels.len() == usize::MAX || l.rows == usize::MAX || l.columns == usize::MAX
            || self.cursor.0 == usize::MAX || self.cursor.1 == usize::MAX {
            return false;
        }
        let mut i: usize = 0;
        while i < l.panels.len()
            invariant
                i <= l.panels.len(),
                l == &self.working_layout,
                forall|j: int|
                    0 <= j < i ==> {
                        let p = #[trigger] l@.panels[j];
                        &&& i32::MIN < span_i32(p.row_span) < i32::MAX
                        &&& i32::MIN < span_i32(p.col_span) < i32::MAX
                        &&& p.row + p.row_span + 1 <= usize::MAX
                        &&& p.col + p.col_span + 1 <= usize::MAX
                    },
            decreases l.panels.len() - i,
        {
            let p = &l.panels[i];
            assert(l@.panels[i as int] == p@);
            let rs = p.row_span as i32;
            let cs = p.col_span as i32;
            if rs == i32::MAX || rs == i32::MIN || cs == i32::MAX || cs == i32::MIN || p.row >= usize::MAX - p.row_span
                || p.col >= usize::MAX - p.col_span {
                return false;
            }
            i += 1;
        }
        true
    }

    fn panel_index_at(&self, row: usize, col: usize) -> (r: Option<usize>)
        requires
            in_range(self@),
        ensures
            match r {
                Some(i) => i < self@.layout.panels.len() && panel_at(self@.layout, row as int, col as int) == Some(i as int),
                None => panel_at(self@.layout, row as int, col as int) is None,
            },
    {
        let ghost pv = self@.layout.panels;
        assert(crate::config::spans_fit_panels(pv)) by {
            assert forall|i: int| 0 <= i < pv.len() implies (#[trigger] pv[i]).row + pv[i].row_span <= usize::MAX
                && pv[i].col + pv[i].col_span <= usize::MAX by {}
        }
        crate::config::first_claimer_exec(&self.working_layout.panels, self.working_layout.panels.len(), row, col)
    }

    fn is_cell_empty_excluding(&self, row: usize, col: usize, exclude: usize) -> (r: bool)
        requires
            in_range(self@),
        ensures
            r == cell_empty_excluding(self@.layout, row as int, col as int, exclude as int),
    {
        let panels = &self.working_layout.panels;
        let ghost pv = self@.layout.panels;
        let mut i: usize = 0;
        while i < panels.len()
            invariant
                i <= panels.len(),
                pv == panels_view(panels@),
                in_range(self@),
                panels == &self.working_layout.panels,
                forall|j: int| 0 <= j < i && j != exclude ==> !covers(#[trigger] pv[j], row as int, col as int),
            decreases panels.len() - i,
        {
            let p = &panels[i];
            assert(pv[i as int] == p@);
            if i != exclude && row >= p.row && row < p.row + p.row_span && col >= p.col && col < p.col + p.col_span {
                return false;
            }
            i += 1;
        }
        true
    }

    fn save_undo(&mut self)
        ensures
            final(self)@ == (EditState { undo: Some(old(self)@.layout), ..old(self)@ }),
    {
        self.undo_state = Some(UndoSnapshot { layout: self.working_layout.duplicate(), added_widget_config: None });
    }

    fn generate_instance_id(&self, widget_type: &str) -> (r: String)
        requires
            self@.layout.panels.len() < usize::MAX,
        ensures
            is_generated_id(self@.layout, widget_type@, r@),
    {
        let existing = instance_ids(&self.working_layout.panels);
        let ghost ids = existing_ids(self@.layout);
        assert(strings_view(existing@) == ids);
        if !contains_str(&existing, widget_type) {
            return widget_type.to_string();
        }
        let mut counter: u64 = 2;
        loop
            invariant
                strings_view(existing@) == ids,
                ids == existing_ids(self@.layout),
                ids.contains(widget_type@),
                ids.len() < usize::MAX,
                2 <= counter,
                counter <= ids.len() + 1,
                forall|m: nat| 2 <= m < counter ==> ids.contains(#[trigger] candidate_id(widget_type@, m)),
            decreases ids.len() + 1 - counter,
        {
            let candidate = candidate_string(widget_type, counter);
            if !contains_str(&existing, candidate.as_str()) {
                assert(is_generated_id(self@.layout, widget_type@, candidate@));
                return candidate;
            }
            proof {
                lemma_candidates_bound(ids, widget_type@, (counter + 1) as nat);
            }
            counter += 1;
        }
    }
}


impl EditMode {
    fn layout_changed(&self) -> (r: EditAction)
        ensures
            r@ == changed_action(self@.layout),
    {
        EditAction::LayoutChanged { layout: self.working_layout.duplicate(), added_widget: None, removed_widget: None }
    }

    fn move_cursor_by(&mut self, code: KeyCode)
        requires
            in_range(old(self)@),
            is_arrow(code),
        ensures
            final(self)@ == (EditState { cursor: move_cursor(old(self)@, code), ..old(self)@ }),
    {
        match code {
            KeyCode::Up => {
                if self.cursor.0 > 0 {
                    self.cursor.0 = self.cursor.0 - 1;
                }
            },
            KeyCode::Down => {
                if self.cursor.0 + 1 < self.working_layout.rows {
                    self.cursor.0 = self.cursor.0 + 1;
                }
            },
            KeyCode::Left => {
                if self.cursor.1 > 0 {
                    self.cursor.1 = self.cursor.1 - 1;
                }
            },
            _ => {
                if self.cursor.1 + 1 < self.working_layout.columns {
                    self.cursor.1 = self.cursor.1 + 1;
                }
            },
        }
    }

    fn set_panel_position(&mut self, idx: usize, row: usize, col: usize)
        requires
            idx < old(self)@.layout.panels.len(),
        ensures
            final(self)@ == (EditState {
                layout: with_panel(
                    old(self)@.layout,
                    idx as int,
                    PanelView { row, col, ..old(self)@.layout.panels[idx as int] },
                ),
                ..old(self)@
            }),
    {
        let mut p = self.working_layout.panels[idx].duplicate();
        p.row = row;
        p.col = col;
        self.working_layout.panels.set(idx, p);
        assert(self@.layout.panels =~= old(self)@.layout.panels.update(
            idx as int,
            PanelView { row, col, ..old(self)@.layout.panels[idx as int] },
        ));
    }

    fn start_add(&mut self) -> (r: EditAction)
        requires
            in_range(old(self)@),
        ensures
            (final(self)@, r@) == idle_step(old(self)@, KeyCode::Char('a')),
    {
        let (row, col) = self.cursor;
        if self.panel_index_at(row, col).is_some() {
            return EditAction::Nothing;
        }
        let names = known_types();
        let mut types: Vec<String> = Vec::new();
        let mut i: usize = 0;
        while i < names.len()
            invariant
                i <= names.len(),
                names@.map_values(|s: &str| s@) == known_type_names(),
                types@.len() == i,
                forall|j: int| 0 <= j < i ==> (#[trigger] types@[j])@ == known_type_names()[j],
            decreases names.len() - i,
        {
            assert(known_type_names()[i as int] == names@[i as int]@);
            types.push(names[i].to_string());
            i += 1;
        }
        assert(strings_view(types@) =~= known_type_names());
        self.pending_op = Some(PendingOp::Adding { selected_index: 0, types });
        EditAction::Nothing
    }

    fn start_delete(&mut self) -> (r: EditAction)
        requires
            in_range(old(self)@),
        ensures
            (final(self)@, r@) == idle_step(old(self)@, KeyCode::Char('d')),
    {
        let (row, col) = self.cursor;
        if let Some(idx) = self.panel_index_at(row, col) {
            let widget_type = self.working_layout.panels[idx].widget_type.clone();
            self.pending_op = Some(PendingOp::ConfirmingDelete { widget_type });
        }
        EditAction::Nothing
    }

    fn start_move(&mut self) -> (r: EditAction)
        requires
            in_range(old(self)@),
        ensures
            (final(self)@, r@) == idle_step(old(self)@, KeyCode::Char('m')),
    {
        let (row, col) = self.cursor;
        if self.panel_index_at(row, col).is_some() {
            self.pending_op = Some(PendingOp::Moving { from: (row, col) });
        }
        EditAction::Nothing
    }

    fn start_swap(&mut self) -> (r: EditAction)
        requires
            in_range(old(self)@),
        ensures
            (final(self)@, r@) == idle_step(old(self)@, KeyCode::Char('x')),
    {
        let (row, col) = self.cursor;
        if self.panel_index_at(row, col).is_some() {
            self.pending_op = Some(PendingOp::Swapping { from: (row, col) });
        }
        EditAction::Nothing
    }

    fn resize_col_span(&mut self, delta: i32) -> (r: EditAction)
        requires
            in_range(old(self)@),
            delta == 1 || delta == -1,
        ensures
            (final(self)@, r@) == resize_cols(old(self)@, delta > 0),
    {
        let ghost s = self@;
        let (row, col) = self.cursor;
        let idx = match self.panel_index_at(row, col) {
            Some(i) => i,
            None => return EditAction::Nothing,
        };
        let ghost pv = s.layout.panels[idx as int];
        assert(pv == self.working_layout.panels@[idx as int]@);
        let p_row = self.working_layout.panels[idx].row;
        let p_col = self.working_layout.panels[idx].col;
        let p_row_span = self.working_layout.panels[idx].row_span;
        let p_col_span = self.working_layout.panels[idx].col_span;
        proof {
            lemma_span_i32(p_col_span);
        }
        let new_span = p_col_span as i32 + delta;
        if new_span < 1 {
            return EditAction::Nothing;
        }
        let new_span = new_span as usize;
        if p_col + new_span > self.working_layout.columns {
            return EditAction::Nothing;
        }
        if delta > 0 && new_span > p_col_span {
            let mut c = p_col + p_col_span;
            while c < p_col + new_span
                invariant
                    s == self@,
                    in_range(s),
                    idx < s.layout.panels.len(),
                    pv == s.layout.panels[idx as int],
                    p_row == pv.row,
                    p_col == pv.col,
                    p_row_span == pv.row_span,
                    p_col_span == pv.col_span,
                    new_span == p_col_span + 1,
                    span_i32(p_col_span) == p_col_span,
                    delta > 0,
                    p_col + new_span <= s.layout.columns,
                    panel_at(s.layout, s.cursor.0 as int, s.cursor.1 as int) == Some(idx as int),
                    p_col + p_col_span <= c <= p_col + new_span,
                    forall|r: int, cc: int|
                        p_row <= r < p_row + p_row_span && p_col + p_col_span <= cc < c
                            ==> cell_empty_excluding(s.layout, r, cc, idx as int),
                decreases p_col + new_span - c,
            {
                let mut r = p_row;
                while r < p_row + p_row_span
                    invariant
                        s == self@,
                        in_range(s),
                        idx < s.layout.panels.len(),
                        pv == s.layout.panels[idx as int],
                        p_row == pv.row,
                        p_col == pv.col,
                        p_row_span == pv.row_span,
                        p_col_span == pv.col_span,
                        new_span == p_col_span + 1,
                        span_i32(p_col_span) == p_col_span,
                    span_i32(p_col_span) == p_col_span,
                        delta > 0,
                        p_col + new_span <= s.layout.columns,
                        panel_at(s.layout, s.cursor.0 as int, s.cursor.1 as int) == Some(idx as int),
                    delta > 0,
                    p_col + new_span <= s.layout.columns,
                    panel_at(s.layout, s.cursor.0 as int, s.cursor.1 as int) == Some(idx as int),
                        p_col + p_col_span <= c < p_col + new_span,
                        p_row <= r <= p_row + p_row_span,
                        forall|rr: int, cc: int|
                            p_row <= rr < p_row + p_row_span && p_col + p_col_span <= cc < c
                                ==> cell_empty_excluding(s.layout, rr, cc, idx as int),
                        forall|rr: int| p_row <= rr < r ==> cell_empty_excluding(s.layout, rr, c as int, idx as int),
                    decreases p_row + p_row_span - r,
                {
                    if !self.is_cell_empty_excluding(r, c, idx) {
                        assert(!cols_free(s.layout, idx as int, pv.row as int, pv.row + pv.row_span, pv.col + pv.col_span, pv.col + (pv.col_span + 1)));
                        return EditAction::Nothing;
                    }
                    r += 1;
                }
                c += 1;
            }
        }
        self.save_undo();
        let mut p = self.working_layout.panels[idx].duplicate();
        p.col_span = new_span;
        self.working_layout.panels.set(idx, p);
        self.dirty = true;
        assert(self@.layout.panels =~= s.layout.panels.update(idx as int, PanelView { col_span: new_span, ..pv }));
        self.layout_changed()
    }

    fn resize_row_span(&mut self, delta: i32) -> (r: EditAction)
        requires
            in_range(old(self)@),
            delta == 1 || delta == -1,
        ensures
            (final(self)@, r@) == resize_rows(old(self)@, delta > 0),
    {
        let ghost s = self@;
        let (row, col) = self.cursor;
        let idx = match self.panel_index_at(row, col) {
            Some(i) => i,
            None => return EditAction::Nothing,
        };
        let ghost pv = s.layout.panels[idx as int];
        assert(pv == self.working_layout.panels@[idx as int]@);
        let p_row = self.working_layout.panels[idx].row;
        let p_col = self.working_layout.panels[idx].col;
        let p_row_span = self.working_layout.panels[idx].row_span;
        let p_col_span = self.working_layout.panels[idx].col_span;
        proof {
            lemma_span_i32(p_row_span);
        }
        let new_span = p_row_span as i32 + delta;
        if new_span < 1 {
            return EditAction::Nothing;
        }
        let new_span = new_span as usize;
        if p_row + new_span > self.working_layout.rows {
            return EditAction::Nothing;
        }
        if delta > 0 && new_span > p_row_span {
            let mut r = p_row + p_row_span;
            while r < p_row + new_span
                invariant
                    s == self@,
                    in_range(s),
                    idx < s.layout.panels.len(),
                    pv == s.layout.panels[idx as int],
                    p_row == pv.row,
                    p_col == pv.col,
                    p_row_span == pv.row_span,
                    p_col_span == pv.col_span,
                    new_span == p_row_span + 1,
                    span_i32(p_row_span) == p_row_span,
                    delta > 0,
                    p_row + new_span <= s.layout.rows,
                    panel_at(s.layout, s.cursor.0 as int, s.cursor.1 as int) == Some(idx as int),
                    p_row + p_row_span <= r <= p_row + new_span,
                    forall|rr: int, cc: int|
                        p_row + p_row_span <= rr < r && p_col <= cc < p_col + p_col_span
                            ==> cell_empty_excluding(s.layout, rr, cc, idx as int),
                decreases p_row + new_span - r,
            {
                let mut c = p_col;
                while c < p_col + p_col_span
                    invariant
                        s == self@,
                        in_range(s),
                        idx < s.layout.panels.len(),
                        pv == s.layout.panels[idx as int],
                        p_row == pv.row,
                        p_col == pv.col,
                        p_row_span == pv.row_span,
                        p_col_span == pv.col_span,
                        new_span == p_row_span + 1,
                        span_i32(p_row_span) == p_row_span,
                    span_i32(p_row_span) == p_row_span,
                        delta > 0,
                        p_row + new_span <= s.layout.rows,
                        panel_at(s.layout, s.cursor.0 as int, s.cursor.1 as int) == Some(idx as int),
                    delta > 0,
                    p_row + new_span <= s.layout.rows,
                    panel_at(s.layout, s.cursor.0 as int, s.cursor.1 as int) == Some(idx as int),
                        p_row + p_row_span <= r < p_row + new_span,
                        p_col <= c <= p_col + p_col_span,
                        forall|rr: int, cc: int|
                            p_row + p_row_span <= rr < r && p_col <= cc < p_col + p_col_span
                                ==> cell_empty_excluding(s.layout, rr, cc, idx as int),
                        forall|cc: int| p_col <= cc < c ==> cell_empty_excluding(s.layout, r as int, cc, idx as int),
                    decreases p_col + p_col_span - c,
                {
                    if !self.is_cell_empty_excluding(r, c, idx) {
                        assert(!cols_free(s.layout, idx as int, pv.row + pv.row_span, pv.row + (pv.row_span + 1), pv.col as int, pv.col + pv.col_span));
                        return EditAction::Nothing;
                    }
                    c += 1;
                }
                r += 1;
            }
        }
        self.save_undo();
        let mut p = self.working_layout.panels[idx].duplicate();
        p.row_span = new_span;
        self.working_layout.panels.set(idx, p);
        self.dirty = true;
        assert(self@.layout.panels =~= s.layout.panels.update(idx as int, PanelView { row_span: new_span, ..pv }));
        self.layout_changed()
    }
}


impl EditMode {
    fn add_column(&mut self) -> (r: EditAction)
        requires
            in_range(old(self)@),
        ensures
            (final(self)@, r@) == idle_step(old(self)@, KeyCode::Char('C')),
    {
        self.save_undo();
        self.working_layout.columns = self.working_layout.columns + 1;
        self.dirty = true;
        self.layout_changed()
    }

    fn add_row(&mut self) -> (r: EditAction)
        requires
            in_range(old(self)@),
        ensures
            (final(self)@, r@) == idle_step(old(self)@, KeyCode::Char('R')),
    {
        self.save_undo();
        self.working_layout.rows = self.working_layout.rows + 1;
        self.dirty = true;
        self.layout_changed()
    }

    fn remove_last_column(&mut self) -> (r: EditAction)
        requires
            in_range(old(self)@),
        ensures
            (final(self)@, r@) == remove_last_column(old(self)@),
    {
        let ghost s = self@;
        if self.working_layout.columns <= 1 {
            return EditAction::Nothing;
        }
        let last_col = self.working_layout.columns - 1;
        let mut i: usize = 0;
        while i < self.working_layout.panels.len()
            invariant
                s == self@,
                in_range(s),
                last_col == s.layout.columns - 1,
                i <= s.layout.panels.len(),
                forall|j: int| 0 <= j < i ==> (#[trigger] s.layout.panels[j]).col + s.layout.panels[j].col_span <= last_col,
            decreases s.layout.panels.len() - i,
        {
            let p = &self.working_layout.panels[i];
            assert(s.layout.panels[i as int] == p@);
            if p.col + p.col_span > last_col {
                assert(last_line_occupied(s.layout, false));
                return EditAction::Nothing;
            }
            i += 1;
        }
        self.save_undo();
        self.working_layout.columns = self.working_layout.columns - 1;
        if self.cursor.1 >= self.working_layout.columns {
            self.cursor.1 = self.working_layout.columns - 1;
        }
        self.dirty = true;
        self.layout_changed()
    }

    fn remove_last_row(&mut self) -> (r: EditAction)
        requires
            in_range(old(self)@),
        ensures
            (final(self)@, r@) == remove_last_row(old(self)@),
    {
        let ghost s = self@;
        if self.working_layout.rows <= 1 {
            return EditAction::Nothing;
        }
        let last_row = self.working_layout.rows - 1;
        let mut i: usize = 0;
        while i < self.working_layout.panels.len()
            invariant
                s == self@,
                in_range(s),
                last_row == s.layout.rows - 1,
                i <= s.layout.panels.len(),
                forall|j: int| 0 <= j < i ==> (#[trigger] s.layout.panels[j]).row + s.layout.panels[j].row_span <= last_row,
            decreases s.layout.panels.len() - i,
        {
            let p = &self.working_layout.panels[i];
            assert(s.layout.panels[i as int] == p@);
            if p.row + p.row_span > last_row {
                assert(last_line_occupied(s.layout, true));
                return EditAction::Nothing;
            }
            i += 1;
        }
        self.save_undo();
        self.working_layout.rows = self.working_layout.rows - 1;
        if self.cursor.0 >= self.working_layout.rows {
            self.cursor.0 = self.working_layout.rows - 1;
        }
        self.dirty = true;
        self.layout_changed()
    }

    fn undo(&mut self) -> (r: EditAction)
        ensures
            (final(self)@, r@) == idle_step(old(self)@, KeyCode::Char('u')),
    {
        if let Some(snapshot) = self.undo_state.take() {
            self.working_layout = snapshot.layout;
            self.dirty = true;
            self.layout_changed()
        } else {
            EditAction::Nothing
        }
    }

    fn handle_idle_key(&mut self, code: KeyCode) -> (r: EditAction)
        requires
            in_range(old(self)@),
            old(self)@.pending is None,
        ensures
            (final(self)@, r@) == idle_step(old(self)@, code),
    {
        match code {
            KeyCode::Up | KeyCode::Down | KeyCode::Left | KeyCode::Right => {
                self.move_cursor_by(code);
                EditAction::Nothing
            },
            KeyCode::Esc => {
                if self.dirty {
                    self.pending_op = Some(PendingOp::ConfirmingExit);
                    EditAction::Nothing
                } else {
                    EditAction::Exit
                }
            },
            KeyCode::Char('s') => {
                if self.dirty {
                    self.dirty = false;
                    EditAction::Save
                } else {
                    EditAction::Nothing
                }
            },
            KeyCode::Char('a') => self.start_add(),
            KeyCode::Char('d') => self.start_delete(),
            KeyCode::Char('m') => self.start_move(),
            KeyCode::Char('x') => self.start_swap(),
            KeyCode::Char('+') => self.resize_col_span(1),
            KeyCode::Char('-') => self.resize_col_span(-1),
            KeyCode::Char('>') => self.resize_row_span(1),
            KeyCode::Char('<') => self.resize_row_span(-1),
            KeyCode::Char('C') => self.add_column(),
            KeyCode::Char('c') => self.remove_last_column(),
            KeyCode::Char('R') => self.add_row(),
            KeyCode::Char('r') => self.remove_last_row(),
            KeyCode::Char('u') => self.undo(),
            _ => EditAction::Nothing,
        }
    }
}


impl EditMode {
    fn handle_adding_key(&mut self, code: KeyCode, selected_index: usize, types: Vec<String>) -> (r: EditAction)
        requires
            in_range(old(self)@),
            old(self)@.pending == Some(PendingView::Adding { selected_index, types: strings_view(types@) }),
            selected_index < types.len(),
        ensures
            exists|new_id: Seq<char>|
                add_id_ok(old(self)@, code, new_id) && (final(self)@, r@) == edit_step(old(self)@, code, new_id),
    {
        let ghost s = self@;
        match code {
            KeyCode::Up => {
                let new_index = if selected_index > 0 { selected_index - 1 } else { selected_index };
                self.pending_op = Some(PendingOp::Adding { selected_index: new_index, types });
                assert(add_id_ok(s, code, Seq::empty()));
                EditAction::Nothing
            },
            KeyCode::Down => {
                let new_index = if selected_index + 1 < types.len() { selected_index + 1 } else { selected_index };
                self.pending_op = Some(PendingOp::Adding { selected_index: new_index, types });
                assert(add_id_ok(s, code, Seq::empty()));
                EditAction::Nothing
            },
            KeyCode::Enter => {
                let widget_type = types[selected_index].clone();
                assert(strings_view(types@)[selected_index as int] == widget_type@);
                let instance_id = self.generate_instance_id(widget_type.as_str());
                self.save_undo();
                let panel = PanelConfig {
                    row: self.cursor.0,
                    col: self.cursor.1,
                    widget_type: widget_type.clone(),
                    id: Some(instance_id.clone()),
                    col_span: 1,
                    row_span: 1,
                };
                self.working_layout.panels.push(panel);
                self.dirty = true;
                self.pending_op = None;
                assert(self@.layout.panels =~= s.layout.panels.push(panel@));
                assert(add_id_ok(s, code, instance_id@));
                EditAction::LayoutChanged {
                    layout: self.working_layout.duplicate(),
                    added_widget: Some((instance_id, widget_type)),
                    removed_widget: None,
                }
            },
            KeyCode::Esc => {
                self.pending_op = None;
                assert(add_id_ok(s, code, Seq::empty()));
                EditAction::Nothing
            },
            _ => {
                assert(add_id_ok(s, code, Seq::empty()));
                EditAction::Nothing
            },
        }
    }

    fn handle_confirming_delete_key(&mut self, code: KeyCode) -> (r: EditAction)
        requires
            in_range(old(self)@),
            old(self)@.pending matches Some(PendingView::ConfirmingDelete { .. }),
        ensures
            (final(self)@, r@) == delete_step(old(self)@, code),
    {
        let ghost s = self@;
        match code {
            KeyCode::Char('y') => {
                let (row, col) = self.cursor;
                if let Some(idx) = self.panel_index_at(row, col) {
                    assert(s.layout.panels[idx as int] == self.working_layout.panels@[idx as int]@);
                    let instance_id = self.working_layout.panels[idx].instance_id().to_string();
                    self.save_undo();
                    self.working_layout.panels.remove(idx);
                    self.dirty = true;
                    self.pending_op = None;
                    assert(self@.layout.panels =~= s.layout.panels.remove(idx as int));
                    EditAction::LayoutChanged {
                        layout: self.working_layout.duplicate(),
                        added_widget: None,
                        removed_widget: Some(instance_id),
                    }
                } else {
                    self.pending_op = None;
                    EditAction::Nothing
                }
            },
            _ => {
                self.pending_op = None;
                EditAction::Nothing
            },
        }
    }

    fn handle_moving_key(&mut self, code: KeyCode, from: (usize, usize)) -> (r: EditAction)
        requires
            in_range(old(self)@),
            old(self)@.pending == Some(PendingView::Moving { from }),
        ensures
            (final(self)@, r@) == move_step(old(self)@, code, from),
    {
        match code {
            KeyCode::Up | KeyCode::Down | KeyCode::Left | KeyCode::Right => {
                self.move_cursor_by(code);
                EditAction::Nothing
            },
            KeyCode::Enter => {
                let target = self.cursor;
                if target.0 == from.0 && target.1 == from.1 {
                    self.pending_op = None;
                    return EditAction::Nothing;
                }
                if self.panel_index_at(target.0, target.1).is_some() {
                    return EditAction::Nothing;
                }
                if let Some(idx) = self.panel_index_at(from.0, from.1) {
                    self.save_undo();
                    self.set_panel_position(idx, target.0, target.1);
                    self.dirty = true;
                    self.pending_op = None;
                    self.layout_changed()
                } else {
                    self.pending_op = None;
                    EditAction::Nothing
                }
            },
            KeyCode::Esc => {
                self.pending_op = None;
                EditAction::Nothing
            },
            _ => EditAction::Nothing,
        }
    }

    fn handle_swapping_key(&mut self, code: KeyCode, from: (usize, usize)) -> (r: EditAction)
        requires
            in_range(old(self)@),
            old(self)@.pending == Some(PendingView::Swapping { from }),
        ensures
            (final(self)@, r@) == swap_step(old(self)@, code, from),
    {
        match code {
            KeyCode::Up | KeyCode::Down | KeyCode::Left | KeyCode::Right => {
                self.move_cursor_by(code);
                EditAction::Nothing
            },
            KeyCode::Enter => {
                let target = self.cursor;
                if target.0 == from.0 && target.1 == from.1 {
                    self.pending_op = None;
                    return EditAction::Nothing;
                }
                let from_idx = self.panel_index_at(from.0, from.1);
                let target_idx = self.panel_index_at(target.0, target.1);
                match (from_idx, target_idx) {
                    (Some(fi), Some(ti)) => {
                        self.save_undo();
                        let from_row = self.working_layout.panels[fi].row;
                        let from_col = self.working_layout.panels[fi].col;
                        let target_row = self.working_layout.panels[ti].row;
                        let target_col = self.working_layout.panels[ti].col;
                        self.set_panel_position(fi, target_row, target_col);
                        self.set_panel_position(ti, from_row, from_col);
                        self.dirty = true;
                        self.pending_op = None;
                        self.layout_changed()
                    },
                    _ => EditAction::Nothing,
                }
            },
            KeyCode::Esc => {
                self.pending_op = None;
                EditAction::Nothing
            },
            _ => EditAction::Nothing,
        }
    }

    fn handle_confirming_exit_key(&mut self, code: KeyCode) -> (r: EditAction)
        requires
            old(self)@.pending == Some(PendingView::ConfirmingExit),
        ensures
            (final(self)@, r@) == edit_step(old(self)@, code, Seq::empty()),
    {
        self.pending_op = None;
        match code {
            KeyCode::Esc => EditAction::Exit,
            _ => EditAction::Nothing,
        }
    }

    /// One key press. A pending operation takes the key first; otherwise it
    /// moves the cursor or starts an operation. `new_id` in the contract is
    /// the id an add gives the new widget (see `is_generated_id`). Every key
    /// but an undo needs the layout within the machine's limits
    /// (`within_limits`).
    pub fn handle_key(&mut self, key: KeyEvent) -> (r: EditAction)
        requires
            !is_undo_key(old(self)@, key.code) ==> in_range(old(self)@),
            pending_ok(old(self)@),
        ensures
            exists|new_id: Seq<char>|
                add_id_ok(old(self)@, key.code, new_id) && (final(self)@, r@) == edit_step(
                    old(self)@,
                    key.code,
                    new_id,
                ),
            pending_ok(final(self)@),
    {
        let ghost s = self@;
        let code = key.code;
        match &self.pending_op {
            None => {
                if code == KeyCode::Char('u') {
                    let r = self.undo();
                    assert(add_id_ok(s, code, Seq::empty()));
                    return r;
                }
                let r = self.handle_idle_key(code);
                assert(add_id_ok(s, code, Seq::empty()));
                r
            },
            Some(PendingOp::Adding { selected_index, types }) => {
                let sel = *selected_index;
                let types = crate::config::clone_strings(types);
                self.handle_adding_key(code, sel, types)
            },
            Some(PendingOp::ConfirmingDelete { .. }) => {
                let r = self.handle_confirming_delete_key(code);
                assert(add_id_ok(s, code, Seq::empty()));
                r
            },
            Some(PendingOp::Moving { from }) => {
                let from = *from;
                let r = self.handle_moving_key(code, from);
                assert(add_id_ok(s, code, Seq::empty()));
                r
            },
            Some(PendingOp::Swapping { from }) => {
                let from = *from;
                let r = self.handle_swapping_key(code, from);
                assert(add_id_ok(s, code, Seq::empty()));
                r
            },
            Some(PendingOp::ConfirmingExit) => {
                let r = self.handle_confirming_exit_key(code);
                assert(add_id_ok(s, code, Seq::empty()));
                r
            },
        }
    }
}


// ─── Laws ────────────────────────────────────────────────────────────────────

/// The layout changes only with a `LayoutChanged` action, which carries the
/// new layout and leaves unsaved changes; any other action leaves the layout
/// and the undo snapshot as they were.
pub proof fn lemma_layout_changes_are_reported(s: EditState, code: KeyCode, new_id: Seq<char>)
    ensures
        ({
            let (s1, a) = edit_step(s, code, new_id);
            match a {
                EditActionView::LayoutChanged { layout, .. } => layout == s1.layout && s1.dirty && s1.pending is None,
                _ => s1.layout == s.layout && s1.undo == s.undo,
            }
        }),
{
}

/// Undo right after a layout change restores the layout from before it.
pub proof fn lemma_undo_restores_previous_layout(s: EditState, code: KeyCode, new_id: Seq<char>, any_id: Seq<char>)
    requires
        !(s.pending is None && code == KeyCode::Char('u')),
        edit_step(s, code, new_id).1 is LayoutChanged,
    ensures
        ({
            let s1 = edit_step(s, code, new_id).0;
            let (s2, a) = edit_step(s1, KeyCode::Char('u'), any_id);
            &&& s2.layout == s.layout
            &&& a == changed_action(s.layout)
            &&& s2.undo is None
        }),
{
}

/// With no unsaved changes, Escape leaves the editor at once; with unsaved
/// changes, the first Escape asks for confirmation and a second one leaves.
pub proof fn lemma_escape_exits(s: EditState, id1: Seq<char>, id2: Seq<char>)
    requires
        s.pending is None,
    ensures
        !s.dirty ==> edit_step(s, KeyCode::Esc, id1) == (s, EditActionView::Exit),
        s.dirty ==> ({
            let (s1, a1) = edit_step(s, KeyCode::Esc, id1);
            let (s2, a2) = edit_step(s1, KeyCode::Esc, id2);
            &&& a1 == EditActionView::Nothing
            &&& s1.pending == Some(PendingView::ConfirmingExit)
            &&& a2 == EditActionView::Exit
            &&& s2.pending is None
            &&& s2.layout == s.layout
        }),
{
}

/// Saving reports `Save` only when there are unsaved changes, and clears them.
pub proof fn lemma_save_clears_dirty(s: EditState, new_id: Seq<char>)
    requires
        s.pending is None,
    ensures
        s.dirty ==> edit_step(s, KeyCode::Char('s'), new_id) == (EditState { dirty: false, ..s }, EditActionView::Save),
        !s.dirty ==> edit_step(s, KeyCode::Char('s'), new_id) == (s, EditActionView::Nothing),
{
}

/// Every step but undo keeps the cursor on the grid.
pub proof fn lemma_cursor_stays_on_grid(s: EditState, code: KeyCode, new_id: Seq<char>)
    requires
        in_range(s),
        s.cursor.0 < s.layout.rows,
        s.cursor.1 < s.layout.columns,
        !(s.pending is None && code == KeyCode::Char('u')),
    ensures
        ({
            let s1 = edit_step(s, code, new_id).0;
            s1.cursor.0 < s1.layout.rows && s1.cursor.1 < s1.layout.columns
        }),
{
}

/// A generated instance id is not the id of any panel already in the layout.
pub proof fn lemma_generated_id_is_fresh(l: ProfileView, t: Seq<char>, id: Seq<char>)
    requires
        is_generated_id(l, t, id),
    ensures
        !existing_ids(l).contains(id),
{
}

/// Panel `p` spans cell `(r, c)`: its rows `row..row + row_span` and
/// columns `col..col + col_span` include it.
pub open spec fn spans_cell(p: PanelView, r: int, c: int) -> bool {
    &&& p.row <= r < p.row + p.row_span
    &&& p.col <= c < p.col + p.col_span
}

/// No grid cell is spanned by two panels.
pub open spec fn panels_apart(l: ProfileView) -> bool {
    forall|i: int, j: int, r: int, c: int|
        0 <= i < l.panels.len() && 0 <= j < l.panels.len() && i != j && #[trigger] spans_cell(l.panels[i], r, c)
            ==> !#[trigger] spans_cell(l.panels[j], r, c)
}

proof fn lemma_claimer_in_range(panels: Seq<PanelView>, n: int, r: int, c: int)
    ensures
        first_claimer(panels, n, r, c) matches Some(i) ==> 0 <= i < n && covers(panels[i], r, c),
    decreases n,
{
    if n > 0 {
        lemma_claimer_in_range(panels, n - 1, r, c);
    }
}

/// Resizing a panel (`+`, `-`, `>`, `<`) never makes two panels share a
/// cell: when no cell was spanned by two panels before, none is after the
/// layout changes.
pub proof fn lemma_resize_keeps_panels_apart(s: EditState, code: KeyCode, new_id: Seq<char>)
    requires
        s.pending is None,
        code == KeyCode::Char('+') || code == KeyCode::Char('-') || code == KeyCode::Char('>') || code == KeyCode::Char('<'),
        panels_apart(s.layout),
    ensures
        panels_apart(edit_step(s, code, new_id).0.layout),
{
    let l = s.layout;
    match panel_at(l, s.cursor.0 as int, s.cursor.1 as int) {
        None => {},
        Some(idx) => {
            lemma_claimer_in_range(l.panels, l.panels.len() as int, s.cursor.0 as int, s.cursor.1 as int);
            let p = l.panels[idx];
            lemma_span_i32(p.col_span);
            lemma_span_i32(p.row_span);
            let l2 = edit_step(s, code, new_id).0.layout;
            if l2 != l {
                assert(l2.panels.len() == l.panels.len());
                let q = l2.panels[idx];
                assert forall|i: int, j: int, r: int, c: int|
                    0 <= i < l2.panels.len() && 0 <= j < l2.panels.len() && i != j && #[trigger] spans_cell(l2.panels[i], r, c)
                        implies !#[trigger] spans_cell(l2.panels[j], r, c) by {
                    if i != idx && j != idx {
                        assert(l2.panels[i] == l.panels[i] && l2.panels[j] == l.panels[j]);
                    } else {
                        let other = if i == idx { j } else { i };
                        assert(l2.panels[other] == l.panels[other]);
                        if spans_cell(q, r, c) && spans_cell(l.panels[other], r, c) {
                            if spans_cell(p, r, c) {
                                assert(spans_cell(l.panels[idx], r, c));
                            } else {
                                assert(cell_empty_excluding(l, r, c, idx));
                                assert(covers(l.panels[other], r, c));
                            }
                        }
                    }
                }
            }
        },
    }
}

} // verus!
