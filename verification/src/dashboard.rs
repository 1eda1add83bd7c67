//! The decisions of the dashboard's event loop: where a key goes, how focus
//! moves over the grid, when interact mode may start, how a lost data
//! source is restarted, and what the footer says. The loop itself (the
//! terminal, the timers and the tasks) runs outside the library.
use vstd::prelude::*;

use crate::action::Direction;
use crate::keys::{KeyCode, KeyEvent};
use crate::layout::{EngineView, LayoutEngine, occupant};
use crate::text::{dec, push_dec, str_eq, string_from_chars};
use crate::widgets::util::push_str_chars;

verus! {

broadcast use vstd::string::group_string_axioms;

// ─── Keys ────────────────────────────────────────────────────────────────────

/// Where a key press goes.
#[derive(Debug, Clone, Copy, PartialEq, Eq, Structural)]
pub enum KeyRoute {
    /// Close the help overlay.
    CloseHelp,
    /// Nothing happens.
    Ignore,
    /// Leave the program.
    Quit,
    /// Open the help overlay.
    ShowHelp,
    /// Read the configuration file again.
    Reload,
    /// Hand the key to the focused widget.
    ToWidget,
    FocusNext,
    FocusPrev,
    Focus(Direction),
}

/// The route of a key: the help overlay takes every key while shown (`?`
/// and Escape close it); then `q`, Ctrl+C, `?` and `r` act everywhere; in
/// interact mode the focused widget gets the key; otherwise Tab, Shift+Tab
/// and the arrows move focus and the rest goes to the focused widget.
pub open spec fn route_key_spec(show_help: bool, interact_mode: bool, key: KeyEvent) -> KeyRoute {
    if show_help {
        if key.code == KeyCode::Char('?') || key.code == KeyCode::Esc {
            KeyRoute::CloseHelp
        } else {
            KeyRoute::Ignore
        }
    } else if key.code == KeyCode::Char('q') {
        KeyRoute::Quit
    } else if key.code == KeyCode::Char('c') && key.modifiers.control {
        KeyRoute::Quit
    } else if key.code == KeyCode::Char('?') {
        KeyRoute::ShowHelp
    } else if key.code == KeyCode::Char('r') {
        KeyRoute::Reload
    } else if interact_mode {
        KeyRoute::ToWidget
    } else {
        match key.code {
            KeyCode::Tab => KeyRoute::FocusNext,
            KeyCode::BackTab => KeyRoute::FocusPrev,
            KeyCode::Up => KeyRoute::Focus(Direction::Up),
            KeyCode::Down => KeyRoute::Focus(Direction::Down),
            KeyCode::Left => KeyRoute::Focus(Direction::Left),
            KeyCode::Right => KeyRoute::Focus(Direction::Right),
            _ => KeyRoute::ToWidget,
        }
    }
}

pub fn route_key(show_help: bool, interact_mode: bool, key: &KeyEvent) -> (r: KeyRoute)
    ensures
        r == route_key_spec(show_help, interact_mode, *key),
{
    if show_help {
        return match key.code {
            KeyCode::Char('?') | KeyCode::Esc => KeyRoute::CloseHelp,
            _ => KeyRoute::Ignore,
        };
    }
    match key.code {
        KeyCode::Char('q') => return KeyRoute::Quit,
        KeyCode::Char('c') => {
            if key.modifiers.control {
                return KeyRoute::Quit;
            }
        },
        KeyCode::Char('?') => return KeyRoute::ShowHelp,
        KeyCode::Char('r') => return KeyRoute::Reload,
        _ => {},
    }
    if interact_mode {
        return KeyRoute::ToWidget;
    }
    match key.code {
        KeyCode::Tab => KeyRoute::FocusNext,
        KeyCode::BackTab => KeyRoute::FocusPrev,
        KeyCode::Up => KeyRoute::Focus(Direction::Up),
        KeyCode::Down => KeyRoute::Focus(Direction::Down),
        KeyCode::Left => KeyRoute::Focus(Direction::Left),
        KeyCode::Right => KeyRoute::Focus(Direction::Right),
        _ => KeyRoute::ToWidget,
    }
}

/// Outside the help overlay, `q` and Ctrl+C always quit, in every mode.
pub proof fn lemma_quit_keys_always_quit(interact_mode: bool, key: KeyEvent)
    requires
        key.code == KeyCode::Char('q') || (key.code == KeyCode::Char('c') && key.modifiers.control),
    ensures
        route_key_spec(false, interact_mode, key) == KeyRoute::Quit,
{
}

// ─── Focus ───────────────────────────────────────────────────────────────────

/// The position of `cell` among `cells`, the first one.
pub open spec fn position_of(cells: Seq<(usize, usize)>, cell: (usize, usize)) -> Option<int>
    decreases cells.len(),
{
    if cells.len() == 0 {
        None
    } else {
        match position_of(cells.drop_last(), cell) {
            Some(i) => Some(i),
            None => if cells.last() == cell {
                Some(cells.len() - 1)
            } else {
                None
            },
        }
    }
}

/// Focus after Tab: the next occupied cell in reading order, wrapping round;
/// the first one when the focus is elsewhere; unchanged with no cells.
pub open spec fn next_focus(cells: Seq<(usize, usize)>, focus: Option<(usize, usize)>) -> Option<(usize, usize)> {
    if cells.len() == 0 {
        focus
    } else {
        match focus {
            Some(cur) => match position_of(cells, cur) {
                Some(p) => Some(cells[(p + 1) % (cells.len() as int)]),
                None => Some(cells[0]),
            },
            None => Some(cells[0]),
        }
    }
}

/// Focus after Shift+Tab: the previous occupied cell, wrapping round.
pub open spec fn prev_focus(cells: Seq<(usize, usize)>, focus: Option<(usize, usize)>) -> Option<(usize, usize)> {
    if cells.len() == 0 {
        focus
    } else {
        match focus {
            Some(cur) => match position_of(cells, cur) {
                Some(p) => Some(if p == 0 { cells[cells.len() - 1] } else { cells[p - 1] }),
                None => Some(cells[0]),
            },
            None => Some(cells[0]),
        }
    }
}

fn position_exec(cells: &Vec<(usize, usize)>, cell: (usize, usize)) -> (r: Option<usize>)
    ensures
        match r {
            Some(i) => position_of(cells@, cell) == Some(i as int) && i < cells.len(),
            None => position_of(cells@, cell) is None,
        },
{
    let mut i: usize = 0;
    while i < cells.len()
        invariant
            i <= cells.len(),
            position_of(cells@.take(i as int), cell) is None,
        decreases cells.len() - i,
    {
        assert(cells@.take(i + 1).drop_last() =~= cells@.take(i as int));
        if cells[i].0 == cell.0 && cells[i].1 == cell.1 {
            proof {
                lemma_position_prefix(cells@, i + 1, cell);
            }
            return Some(i);
        }
        i += 1;
    }
    assert(cells@.take(cells.len() as int) =~= cells@);
    None
}

/// Once a prefix holds `cell`, longer prefixes find it at the same place.
proof fn lemma_position_prefix(cells: Seq<(usize, usize)>, k: int, cell: (usize, usize))
    requires
        0 <= k <= cells.len(),
        position_of(cells.take(k), cell) is Some,
    ensures
        position_of(cells, cell) == position_of(cells.take(k), cell),
    decreases cells.len() - k,
{
    if k < cells.len() {
        assert(cells.take(k + 1).drop_last() =~= cells.take(k));
        lemma_position_prefix(cells, k + 1, cell);
    } else {
        assert(cells.take(k) =~= cells);
    }
}

/// Moves focus forward over the occupied cells (Tab).
pub fn focus_next(cells: &Vec<(usize, usize)>, focus: Option<(usize, usize)>) -> (r: Option<(usize, usize)>)
    ensures
        r == next_focus(cells@, focus),
{
    if cells.len() == 0 {
        return focus;
    }
    match focus {
        Some(cur) => match position_exec(cells, cur) {
            Some(p) => Some(cells[(p + 1) % cells.len()]),
            None => Some(cells[0]),
        },
        None => Some(cells[0]),
    }
}

/// Moves focus backward over the occupied cells (Shift+Tab).
pub fn focus_prev(cells: &Vec<(usize, usize)>, focus: Option<(usize, usize)>) -> (r: Option<(usize, usize)>)
    ensures
        r == prev_focus(cells@, focus),
{
    if cells.len() == 0 {
        return focus;
    }
    match focus {
        Some(cur) => match position_exec(cells, cur) {
            Some(p) => Some(if p == 0 { cells[cells.len() - 1] } else { cells[p - 1] }),
            None => Some(cells[0]),
        },
        None => Some(cells[0]),
    }
}

/// Among cells with no repeats, Shift+Tab undoes Tab and Tab undoes
/// Shift+Tab, from any focused occupied cell.
pub proof fn lemma_focus_next_prev_inverse(cells: Seq<(usize, usize)>, cur: (usize, usize))
    requires
        cells.no_duplicates(),
        cells.contains(cur),
    ensures
        prev_focus(cells, next_focus(cells, Some(cur))) == Some(cur),
        next_focus(cells, prev_focus(cells, Some(cur))) == Some(cur),
{
    let n = cells.len() as int;
    lemma_position_found(cells, cur);
    let p = position_of(cells, cur)->0;
    let q = (p + 1) % n;
    assert(0 <= q < n) by (nonlinear_arith)
        requires
            q == (p + 1) % n,
            n > 0,
    ;
    lemma_position_unique(cells, q);
    if p + 1 < n {
        assert(q == p + 1) by (nonlinear_arith)
            requires
                q == (p + 1) % n,
                0 <= p + 1 < n,
        ;
    } else {
        assert(q == 0) by (nonlinear_arith)
            requires
                q == (p + 1) % n,
                p + 1 == n,
                n > 0,
        ;
    }
    let b = if p == 0 { n - 1 } else { p - 1 };
    lemma_position_unique(cells, b);
    if p == 0 {
        assert((n - 1 + 1) % n == 0) by (nonlinear_arith)
            requires
                n > 0,
        ;
    } else {
        assert((p - 1 + 1) % n == p) by (nonlinear_arith)
            requires
                0 < p < n,
        ;
    }
}

proof fn lemma_position_found(cells: Seq<(usize, usize)>, cell: (usize, usize))
    requires
        cells.contains(cell),
    ensures
        position_of(cells, cell) matches Some(p) && 0 <= p < cells.len() && cells[p] == cell,
    decreases cells.len(),
{
    let i = choose|i: int| 0 <= i < cells.len() && cells[i] == cell;
    if i < cells.len() - 1 {
        assert(cells.drop_last()[i] == cell);
        lemma_position_found(cells.drop_last(), cell);
    } else {
        lemma_position_bounds(cells.drop_last(), cell);
    }
}

proof fn lemma_position_bounds(cells: Seq<(usize, usize)>, cell: (usize, usize))
    ensures
        position_of(cells, cell) matches Some(p) ==> 0 <= p < cells.len() && cells[p] == cell,
    decreases cells.len(),
{
    if cells.len() > 0 {
        lemma_position_bounds(cells.drop_last(), cell);
    }
}

proof fn lemma_position_unique(cells: Seq<(usize, usize)>, k: int)
    requires
        cells.no_duplicates(),
        0 <= k < cells.len(),
    ensures
        position_of(cells, cells[k]) == Some(k),
    decreases cells.len(),
{
    if k < cells.len() - 1 {
        assert(cells.drop_last().no_duplicates());
        assert(cells.drop_last()[k] == cells[k]);
        lemma_position_unique(cells.drop_last(), k);
    } else {
        lemma_position_none(cells.drop_last(), cells[k]);
    }
}

proof fn lemma_position_none(cells: Seq<(usize, usize)>, cell: (usize, usize))
    requires
        !cells.contains(cell),
    ensures
        position_of(cells, cell) is None,
    decreases cells.len(),
{
    if cells.len() > 0 {
        assert(!cells.drop_last().contains(cell)) by {
            if cells.drop_last().contains(cell) {
                let i = choose|i: int| 0 <= i < cells.drop_last().len() && cells.drop_last()[i] == cell;
                assert(cells[i] == cell);
            }
        }
        lemma_position_none(cells.drop_last(), cell);
    }
}

/// The cell arrow-key focus moves to: the nearest occupied cell in the
/// direction, in the focused row or column; `None` when there is none (the
/// focus then stays) or nothing is focused.
pub open spec fn direction_target(e: EngineView, focus: Option<(usize, usize)>, d: Direction) -> Option<(usize, usize)> {
    match focus {
        None => None,
        Some((r, c)) => match d {
            Direction::Up => match nearest_below(e, c as int, r as int, true) {
                Some(x) => Some((x as usize, c)),
                None => None,
            },
            Direction::Down => match nearest_above(e, c as int, r as int + 1, e.rows as int, true) {
                Some(x) => Some((x as usize, c)),
                None => None,
            },
            Direction::Left => match nearest_below(e, r as int, c as int, false) {
                Some(x) => Some((r, x as usize)),
                None => None,
            },
            Direction::Right => match nearest_above(e, r as int, c as int + 1, e.cols as int, false) {
                Some(x) => Some((r, x as usize)),
                None => None,
            },
        },
    }
}

/// The occupied cell at `x` along a column (`vertical`, with column `fixed`)
/// or a row (with row `fixed`).
pub open spec fn occupied_along(e: EngineView, fixed: int, x: int, vertical: bool) -> bool {
    if vertical {
        occupant(e, x, fixed) is Some
    } else {
        occupant(e, fixed, x) is Some
    }
}

/// The largest `x < hi` (down to 0) that is occupied.
pub open spec fn nearest_below(e: EngineView, fixed: int, hi: int, vertical: bool) -> Option<int>
    decreases hi,
{
    if hi <= 0 {
        None
    } else if occupied_along(e, fixed, hi - 1, vertical) {
        Some(hi - 1)
    } else {
        nearest_below(e, fixed, hi - 1, vertical)
    }
}

/// The smallest `x` in `lo..hi` that is occupied.
pub open spec fn nearest_above(e: EngineView, fixed: int, lo: int, hi: int, vertical: bool) -> Option<int>
    decreases hi - lo,
{
    if lo >= hi {
        None
    } else if occupied_along(e, fixed, lo, vertical) {
        Some(lo)
    } else {
        nearest_above(e, fixed, lo + 1, hi, vertical)
    }
}

fn occupied_along_exec(engine: &LayoutEngine, fixed: usize, x: usize, vertical: bool) -> (r: bool)
    ensures
        r == occupied_along(engine@, fixed as int, x as int, vertical),
{
    if vertical {
        engine.instance_at(x, fixed).is_some()
    } else {
        engine.instance_at(fixed, x).is_some()
    }
}

fn nearest_below_exec(engine: &LayoutEngine, fixed: usize, hi: usize, vertical: bool) -> (r: Option<usize>)
    ensures
        match r {
            Some(x) => nearest_below(engine@, fixed as int, hi as int, vertical) == Some(x as int),
            None => nearest_below(engine@, fixed as int, hi as int, vertical) is None,
        },
{
    let mut k = hi;
    while k > 0
        invariant
            k <= hi,
            nearest_below(engine@, fixed as int, hi as int, vertical) == nearest_below(
                engine@,
                fixed as int,
                k as int,
                vertical,
            ),
        decreases k,
    {
        if occupied_along_exec(engine, fixed, k - 1, vertical) {
            return Some(k - 1);
        }
        k -= 1;
    }
    None
}

fn nearest_above_exec(engine: &LayoutEngine, fixed: usize, lo: usize, hi: usize, vertical: bool) -> (r: Option<usize>)
    ensures
        match r {
            Some(x) => nearest_above(engine@, fixed as int, lo as int, hi as int, vertical) == Some(x as int),
            None => nearest_above(engine@, fixed as int, lo as int, hi as int, vertical) is None,
        },
{
    let mut k = lo;
    while k < hi
        invariant
            lo <= k,
            k <= hi || k == lo,
            nearest_above(engine@, fixed as int, lo as int, hi as int, vertical) == nearest_above(
                engine@,
                fixed as int,
                k as int,
                hi as int,
                vertical,
            ),
        decreases hi - k,
    {
        if occupied_along_exec(engine, fixed, k, vertical) {
            return Some(k);
        }
        k += 1;
    }
    None
}

/// Moves focus with an arrow key: to the nearest occupied cell in that
/// direction, if any; otherwise the focus stays.
pub fn focus_direction(engine: &LayoutEngine, focus: Option<(usize, usize)>, direction: Direction) -> (r: Option<(usize, usize)>)
    requires
        focus matches Some((r, c)) ==> r < usize::MAX && c < usize::MAX,
    ensures
        r == match direction_target(engine@, focus, direction) {
            Some(t) => Some(t),
            None => focus,
        },
{
    let (r, c) = match focus {
        Some(f) => f,
        None => return None,
    };
    let (rows, cols) = engine.grid_dimensions();
    let target = match direction {
        Direction::Up => match nearest_below_exec(engine, c, r, true) {
            Some(x) => Some((x, c)),
            None => None,
        },
        Direction::Down => match nearest_above_exec(engine, c, r + 1, rows, true) {
            Some(x) => Some((x, c)),
            None => None,
        },
        Direction::Left => match nearest_below_exec(engine, r, c, false) {
            Some(x) => Some((r, x)),
            None => None,
        },
        Direction::Right => match nearest_above_exec(engine, r, c + 1, cols, false) {
            Some(x) => Some((r, x)),
            None => None,
        },
    };
    match target {
        Some(t) => Some(t),
        None => focus,
    }
}

/// Focus after the layout changed: kept if its cell is still occupied,
/// otherwise the first occupied cell (none if there is none).
pub fn focus_after_reload(engine: &LayoutEngine, cells: &Vec<(usize, usize)>, focus: Option<(usize, usize)>) -> (r: Option<(usize, usize)>)
    ensures
        r == match focus {
            Some((fr, fc)) => if occupant(engine@, fr as int, fc as int) is Some {
                focus
            } else if cells@.len() > 0 {
                Some(cells@[0])
            } else {
                None
            },
            None => if cells@.len() > 0 {
                Some(cells@[0])
            } else {
                None
            },
        },
{
    let first = if cells.len() > 0 { Some(cells[0]) } else { None };
    match focus {
        Some((fr, fc)) => {
            if engine.instance_at(fr, fc).is_some() {
                focus
            } else {
                first
            }
        },
        None => first,
    }
}

// ─── Panels ──────────────────────────────────────────────────────────────────

/// The border a grid cell is drawn with.
#[derive(Debug, Clone, Copy, PartialEq, Eq, Structural)]
pub enum BorderKind {
    Normal,
    Focused,
    Interact,
}

pub fn border_kind(is_focused: bool, interact_mode: bool) -> (r: BorderKind)
    ensures
        r == (if is_focused && interact_mode {
            BorderKind::Interact
        } else if is_focused {
            BorderKind::Focused
        } else {
            BorderKind::Normal
        }),
{
    if is_focused && interact_mode {
        BorderKind::Interact
    } else if is_focused {
        BorderKind::Focused
    } else {
        BorderKind::Normal
    }
}

/// A panel's inner area is smaller than its widget needs.
pub fn is_undersized(width: u16, height: u16, min_size: (u16, u16)) -> (r: bool)
    ensures
        r == (width < min_size.0 || height < min_size.1),
{
    width < min_size.0 || height < min_size.1
}

/// `id` is among `ids`.
pub fn contains_id(ids: &Vec<String>, id: &str) -> (r: bool)
    ensures
        r == exists|i: int| 0 <= i < ids@.len() && (#[trigger] ids@[i])@ == id@,
{
    let mut i: usize = 0;
    while i < ids.len()
        invariant
            i <= ids.len(),
            forall|j: int| 0 <= j < i ==> (#[trigger] ids@[j])@ != id@,
        decreases ids.len() - i,
    {
        if str_eq(ids[i].as_str(), id) {
            return true;
        }
        i += 1;
    }
    false
}

/// Interact mode may start: a widget is focused and it is not undersized.
pub fn may_enter_interact(focused_id: Option<&str>, undersized: &Vec<String>) -> (r: bool)
    ensures
        r == match focused_id {
            Some(id) => !exists|i: int| 0 <= i < undersized@.len() && (#[trigger] undersized@[i])@ == id@,
            None => false,
        },
{
    match focused_id {
        Some(id) => !contains_id(undersized, id),
        None => false,
    }
}

// ─── Footer and notifications ────────────────────────────────────────────────

pub open spec fn interact_hint() -> Seq<char> {
    " [INTERACT] j/k: scroll | s/S: sort | x: signal | Esc: exit "@
}

pub open spec fn normal_hint() -> Seq<char> {
    " q: quit | Tab/Shift+Tab: cycle focus | Arrow keys: navigate | ?: help "@
}

/// The footer: the current notification, or the key hints of the mode.
pub fn footer_text(notification: &Option<String>, interact_mode: bool) -> (r: String)
    ensures
        r@ == match notification {
            Some(msg) => " "@ + msg@ + " "@,
            None => if interact_mode {
                interact_hint()
            } else {
                normal_hint()
            },
        },
{
    let mut out: Vec<char> = Vec::new();
    match notification {
        Some(msg) => {
            push_str_chars(&mut out, " ");
            push_str_chars(&mut out, msg.as_str());
            push_str_chars(&mut out, " ");
        },
        None => {
            if interact_mode {
                push_str_chars(&mut out, " [INTERACT] j/k: scroll | s/S: sort | x: signal | Esc: exit ");
            } else {
                push_str_chars(&mut out, " q: quit | Tab/Shift+Tab: cycle focus | Arrow keys: navigate | ?: help ");
            }
        },
    }
    string_from_chars(&out)
}

/// The notification after a configuration reload.
pub fn reload_message(tick_rate_changed: bool) -> (r: &'static str)
    ensures
        r@ == (if tick_rate_changed {
            "Config reloaded (tick_rate change requires restart)"@
        } else {
            "Config reloaded"@
        }),
{
    if tick_rate_changed {
        "Config reloaded (tick_rate change requires restart)"
    } else {
        "Config reloaded"
    }
}

// ─── Data source supervision ─────────────────────────────────────────────────

/// The supervision of the system data source: restarts with growing
/// waits after it disconnects, until it has failed too often.
#[derive(Debug, Clone, Copy, PartialEq, Eq, Structural)]
pub struct Supervisor {
    pub retry_count: u32,
    pub max_retries: u32,
    pub dead: bool,
    pub restarting: bool,
    pub disconnected: bool,
}

/// What to do after the data source disconnected.
#[derive(Debug, Clone, Copy, PartialEq, Eq, Structural)]
pub enum Recovery {
    /// The disconnection was expected (a reload is restarting it).
    Expected,
    /// Restart it after this many seconds.
    RestartAfter(u64),
    /// Stop trying.
    GiveUp,
}

pub open spec fn backoff_secs(retry: nat) -> nat {
    let b = crate::widgets::util::two_pow((retry - 1) as nat);
    if b < 30 { b } else { 30 }
}

impl Supervisor {
    /// A fresh source: no retries, at most five.
    pub fn new() -> (r: Supervisor)
        ensures
            r == (Supervisor { retry_count: 0, max_retries: 5, dead: false, restarting: false, disconnected: false }),
    {
        Supervisor { retry_count: 0, max_retries: 5, dead: false, restarting: false, disconnected: false }
    }

    /// The source is polled for data.
    pub fn listening(&self) -> (r: bool)
        ensures
            r == (!self.dead && !self.disconnected),
    {
        !self.dead && !self.disconnected
    }

    /// Data arrived: the retry count starts over.
    pub fn on_data(&mut self)
        ensures
            *final(self) == (Supervisor { retry_count: 0, ..*old(self) }),
    {
        self.retry_count = 0;
    }

    /// The source disconnected: stop polling it; unless a reload is
    /// restarting it, retry after 1, 2, 4, ... seconds (at most 30), until
    /// `max_retries` retries have been made.
    pub fn on_disconnect(&mut self) -> (r: Recovery)
        requires
            old(self).max_retries <= 64,
        ensures
            final(self).disconnected,
            final(self).max_retries == old(self).max_retries,
            final(self).restarting == old(self).restarting,
            old(self).restarting ==> r == Recovery::Expected && final(self).retry_count == old(self).retry_count
                && final(self).dead == old(self).dead,
            !old(self).restarting && old(self).retry_count < old(self).max_retries ==> final(self).retry_count
                == old(self).retry_count + 1 && r == Recovery::RestartAfter(backoff_secs(final(self).retry_count as nat) as u64)
                && final(self).dead == old(self).dead,
            !old(self).restarting && old(self).retry_count >= old(self).max_retries ==> r == Recovery::GiveUp
                && final(self).dead && final(self).retry_count == old(self).retry_count,
    {
        self.disconnected = true;
        if self.restarting {
            return Recovery::Expected;
        }
        if self.retry_count < self.max_retries {
            self.retry_count = self.retry_count + 1;
            let shift = self.retry_count - 1;
            let mut b: u64 = 1;
            let mut i: u32 = 0;
            while i < shift && b < 30
                invariant
                    i <= shift,
                    shift < 64,
                    b == crate::widgets::util::two_pow(i as nat),
                    b < 60,
                decreases shift - i,
            {
                b = b * 2;
                i = i + 1;
            }
            proof {
                lemma_backoff_saturates(i as nat, shift as nat);
            }
            let secs = if b < 30 { b } else { 30 };
            return Recovery::RestartAfter(secs);
        }
        self.dead = true;
        Recovery::GiveUp
    }

    /// A new source was started after a wait: poll it again.
    pub fn on_restarted(&mut self)
        ensures
            *final(self) == (Supervisor { disconnected: false, ..*old(self) }),
    {
        self.disconnected = false;
    }
}

proof fn lemma_backoff_saturates(i: nat, shift: nat)
    requires
        i <= shift,
        i == shift || crate::widgets::util::two_pow(i) >= 30,
    ensures
        (if crate::widgets::util::two_pow(i) < 30 { crate::widgets::util::two_pow(i) } else { 30 }) == (if crate::widgets::util::two_pow(
            shift,
        ) < 30 {
            crate::widgets::util::two_pow(shift)
        } else {
            30
        }),
    decreases shift - i,
{
    if i < shift {
        assert(crate::widgets::util::two_pow(i + 1) == 2 * crate::widgets::util::two_pow(i));
        lemma_backoff_saturates(i + 1, shift);
    }
}

/// The notification for a recovery decision.
pub fn recovery_message(r: Recovery) -> (m: Option<String>)
    ensures
        match r {
            Recovery::Expected => m is None,
            Recovery::RestartAfter(secs) => m matches Some(s) && s@ == "Data source disconnected, restarting in "@ + dec(
                secs as nat,
            ) + "s..."@,
            Recovery::GiveUp => m matches Some(s) && s@ == "Data source failed after 5 retries. Restart the app."@,
        },
{
    match r {
        Recovery::Expected => None,
        Recovery::RestartAfter(secs) => {
            let mut out: Vec<char> = Vec::new();
            push_str_chars(&mut out, "Data source disconnected, restarting in ");
            push_dec(&mut out, secs);
            push_str_chars(&mut out, "s...");
            Some(string_from_chars(&out))
        },
        Recovery::GiveUp => Some("Data source failed after 5 retries. Restart the app.".to_string()),
    }
}

/// With no reload under way and five retries allowed, the waits after
/// successive disconnections are 1, 2, 4, 8 and 16 seconds, and the sixth
/// gives up.
pub proof fn lemma_backoff_sequence()
    ensures
        backoff_secs(1) == 1,
        backoff_secs(2) == 2,
        backoff_secs(3) == 4,
        backoff_secs(4) == 8,
        backoff_secs(5) == 16,
        forall|n: nat| n >= 1 ==> #[trigger] backoff_secs(n) <= 30,
{
    reveal_with_fuel(crate::widgets::util::two_pow, 6);
}

// ─── Arrow-key focus ─────────────────────────────────────────────────────────

/// The cell at row `r`, column `c` holds a panel.
pub open spec fn cell_occupied(e: EngineView, r: int, c: int) -> bool {
    occupant(e, r, c) is Some
}

proof fn lemma_nearest_above(e: EngineView, fixed: int, lo: int, hi: int, vertical: bool)
    ensures
        match nearest_above(e, fixed, lo, hi, vertical) {
            Some(x) => lo <= x < hi && occupied_along(e, fixed, x, vertical) && forall|y: int|
                lo <= y < x ==> !#[trigger] occupied_along(e, fixed, y, vertical),
            None => forall|y: int| lo <= y < hi ==> !#[trigger] occupied_along(e, fixed, y, vertical),
        },
    decreases hi - lo,
{
    if lo < hi {
        lemma_nearest_above(e, fixed, lo + 1, hi, vertical);
    }
}

proof fn lemma_nearest_below(e: EngineView, fixed: int, hi: int, vertical: bool)
    ensures
        match nearest_below(e, fixed, hi, vertical) {
            Some(x) => 0 <= x < hi && occupied_along(e, fixed, x, vertical) && forall|y: int|
                x < y < hi ==> !#[trigger] occupied_along(e, fixed, y, vertical),
            None => forall|y: int| 0 <= y < hi ==> !#[trigger] occupied_along(e, fixed, y, vertical),
        },
    decreases hi,
{
    if hi > 0 {
        lemma_nearest_below(e, fixed, hi - 1, vertical);
    }
}

/// An arrow key moves the focus from `(r, c)` to the nearest occupied cell
/// in its direction, in the same column (Up, Down) or row (Left, Right):
/// the target holds a panel, every cell strictly between holds none, and
/// when no cell in that direction holds a panel the focus does not move.
pub proof fn lemma_arrow_moves_to_nearest(e: EngineView, r: int, c: int, d: Direction)
    requires
        0 <= r < usize::MAX,
        0 <= c < usize::MAX,
    ensures
        ({
            let target = direction_target(e, Some((r as usize, c as usize)), d);
            match d {
                Direction::Down => match target {
                    Some((t, tc)) => tc == c && r < t < e.rows && cell_occupied(e, t as int, c) && forall|x: int|
                        r < x < t ==> !#[trigger] cell_occupied(e, x, c),
                    None => forall|x: int| r < x < e.rows ==> !#[trigger] cell_occupied(e, x, c),
                },
                Direction::Up => match target {
                    Some((t, tc)) => tc == c && 0 <= t < r && cell_occupied(e, t as int, c) && forall|x: int|
                        t < x < r ==> !#[trigger] cell_occupied(e, x, c),
                    None => forall|x: int| 0 <= x < r ==> !#[trigger] cell_occupied(e, x, c),
                },
                Direction::Right => match target {
                    Some((tr, t)) => tr == r && c < t < e.cols && cell_occupied(e, r, t as int) && forall|x: int|
                        c < x < t ==> !#[trigger] cell_occupied(e, r, x),
                    None => forall|x: int| c < x < e.cols ==> !#[trigger] cell_occupied(e, r, x),
                },
                Direction::Left => match target {
                    Some((tr, t)) => tr == r && 0 <= t < c && cell_occupied(e, r, t as int) && forall|x: int|
                        t < x < c ==> !#[trigger] cell_occupied(e, r, x),
                    None => forall|x: int| 0 <= x < c ==> !#[trigger] cell_occupied(e, r, x),
                },
            }
        }),
{
    lemma_nearest_above(e, c, r + 1, e.rows as int, true);
    lemma_nearest_below(e, c, r, true);
    lemma_nearest_above(e, r, c + 1, e.cols as int, false);
    lemma_nearest_below(e, r, c, false);
    assert forall|x: int| #[trigger] cell_occupied(e, x, c) == occupied_along(e, c, x, true) by {}
    assert forall|x: int| #[trigger] cell_occupied(e, r, x) == occupied_along(e, r, x, false) by {}
}

} // verus!
