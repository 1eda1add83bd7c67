//! The process list: sorting settings, selection and scrolling, and asking
//! before sending a signal. The entries themselves (with their CPU shares)
//! are kept by the caller, which tells the widget how many there are and
//! which one is selected.
use vstd::prelude::*;

use crate::action::Action;
use crate::data::types::{ProcessStatus};
use crate::keys::KeyCode;
use crate::registry::lex_lt;
use crate::text::{chars_of, lowercase, str_eq, to_lowercase};
use crate::widgets::{WidgetError, WidgetErrorView};

verus! {

broadcast use vstd::string::group_string_axioms;

pub fn default_sort_by() -> (r: String)
    ensures
        r@ == "cpu"@,
{
    "cpu".to_string()
}

pub fn default_sort_order() -> (r: String)
    ensures
        r@ == "desc"@,
{
    "desc".to_string()
}

pub fn default_count() -> (r: usize)
    ensures
        r == 50,
{
    50
}

/// Settings of the process widget.
#[derive(Debug)]
pub struct ProcessConfig {
    /// `cpu`, `memory`, `pid` or `name`.
    pub sort_by: String,
    /// `asc` or `desc`.
    pub sort_order: String,
    /// How many processes to keep.
    pub count: usize,
}

impl Default for ProcessConfig {
    fn default() -> (r: Self)
        ensures
            r.sort_by@ == "cpu"@,
            r.sort_order@ == "desc"@,
            r.count == 50,
    {
        ProcessConfig { sort_by: default_sort_by(), sort_order: default_sort_order(), count: default_count() }
    }
}

#[derive(Debug, Clone, Copy, PartialEq, Eq, Structural)]
pub enum SortColumn {
    Cpu,
    Memory,
    Pid,
    Name,
}

impl SortColumn {
    pub open spec fn next_spec(self) -> SortColumn {
        match self {
            SortColumn::Cpu => SortColumn::Memory,
            SortColumn::Memory => SortColumn::Pid,
            SortColumn::Pid => SortColumn::Name,
            SortColumn::Name => SortColumn::Cpu,
        }
    }

    /// The column after this one, cycling round.
    pub fn next(self) -> (r: Self)
        ensures
            r == self.next_spec(),
    {
        match self {
            SortColumn::Cpu => SortColumn::Memory,
            SortColumn::Memory => SortColumn::Pid,
            SortColumn::Pid => SortColumn::Name,
            SortColumn::Name => SortColumn::Cpu,
        }
    }

    /// The column's heading.
    pub fn label(self) -> (r: &'static str)
        ensures
            r@ == match self {
                SortColumn::Cpu => "CPU%"@,
                SortColumn::Memory => "MEM"@,
                SortColumn::Pid => "PID"@,
                SortColumn::Name => "Name"@,
            },
    {
        match self {
            SortColumn::Cpu => "CPU%",
            SortColumn::Memory => "MEM",
            SortColumn::Pid => "PID",
            SortColumn::Name => "Name",
        }
    }
}

#[derive(Debug, Clone, Copy, PartialEq, Eq, Structural)]
pub enum SortOrder {
    Asc,
    Desc,
}

impl SortOrder {
    pub open spec fn toggle_spec(self) -> SortOrder {
        match self {
            SortOrder::Asc => SortOrder::Desc,
            SortOrder::Desc => SortOrder::Asc,
        }
    }

    /// The other order.
    pub fn toggle(self) -> (r: Self)
        ensures
            r == self.toggle_spec(),
    {
        match self {
            SortOrder::Asc => SortOrder::Desc,
            SortOrder::Desc => SortOrder::Asc,
        }
    }
}

/// Cycling through the sort columns comes back after four steps, and
/// toggling the order twice restores it.
pub proof fn lemma_sort_cycles(c: SortColumn, o: SortOrder)
    ensures
        c.next_spec().next_spec().next_spec().next_spec() == c,
        c.next_spec() != c,
        o.toggle_spec().toggle_spec() == o,
        o.toggle_spec() != o,
{
}

/// A pending or answered request to terminate a process.
#[derive(Debug)]
pub struct SignalConfirm {
    pub pid: u32,
    pub name: String,
    /// `None` while waiting for the answer; then how sending went.
    pub result: Option<Result<(), String>>,
}

/// The selection and scrolling state of the process widget.
#[derive(Debug)]
pub struct ProcessWidget {
    pub id: String,
    pub config: ProcessConfig,
    /// How many processes the list holds.
    pub process_count: usize,
    pub scroll_offset: usize,
    pub selected_index: usize,
    pub sort_by: SortColumn,
    pub sort_order: SortOrder,
    pub interacting: bool,
    pub signal_confirm: Option<SignalConfirm>,
    pub last_area_height: u16,
}

/// What a key asks the caller to do besides the state change.
#[derive(Debug, PartialEq)]
pub struct ProcessKeyOutcome {
    /// An action for the application.
    pub action: Option<Action>,
    /// The list must be sorted again (the column or order changed).
    pub resort: bool,
    /// Send SIGTERM to this process and report with `record_signal_result`.
    pub send_signal: Option<u32>,
}

pub open spec fn sat_sub(a: int, b: int) -> int {
    if a >= b { a - b } else { 0 }
}

/// Selection and scroll after keeping the selection inside a list of `len`
/// and scrolling it into the `height`-row view (a header row and, while a
/// signal prompt shows, its row excluded).
pub open spec fn adjusted(len: usize, sel: usize, scroll: usize, height: u16, confirm: bool) -> (usize, usize) {
    if len == 0 {
        (0, 0)
    } else {
        let sel1 = if sel >= len { (len - 1) as usize } else { sel };
        let visible = sat_sub(height as int, 1 + if confirm { 1int } else { 0int });
        if visible == 0 {
            (sel1, scroll)
        } else {
            let scroll1 = if sel1 < scroll { sel1 } else { scroll };
            if sel1 >= scroll1 + visible {
                (sel1, sat_sub(sel1 as int, visible - 1) as usize)
            } else {
                (sel1, scroll1)
            }
        }
    }
}

impl ProcessWidget {
    /// A widget with the given settings (the defaults when there are none).
    /// `sort_by` must name a column, `sort_order` be `asc` or `desc`, and
    /// `count` be positive.
    pub fn new(id: String, config: Option<ProcessConfig>) -> (r: Result<Self, WidgetError>)
        ensures
            ({
                let (sb, so, count) = match config {
                    Some(c) => (c.sort_by@, c.sort_order@, c.count),
                    None => ("cpu"@, "desc"@, 50usize),
                };
                let sb_ok = sb == "cpu"@ || sb == "memory"@ || sb == "pid"@ || sb == "name"@;
                let so_ok = so == "asc"@ || so == "desc"@;
                &&& (!sb_ok ==> (r matches Err(e) && e@ == (WidgetErrorView::InvalidSortBy { value: sb })))
                &&& (sb_ok && !so_ok ==> (r matches Err(e) && e@ == (WidgetErrorView::InvalidSortOrder { value: so })))
                &&& (sb_ok && so_ok && count == 0 ==> (r matches Err(e) && e@ == WidgetErrorView::ZeroProcessCount))
                &&& (sb_ok && so_ok && count > 0 ==> (r matches Ok(w) && {
                    &&& w.id@ == id@
                    &&& w.config.count == count
                    &&& w.sort_by == (if sb == "cpu"@ {
                        SortColumn::Cpu
                    } else if sb == "memory"@ {
                        SortColumn::Memory
                    } else if sb == "pid"@ {
                        SortColumn::Pid
                    } else {
                        SortColumn::Name
                    })
                    &&& w.sort_order == (if so == "asc"@ { SortOrder::Asc } else { SortOrder::Desc })
                    &&& w.process_count == 0 && w.scroll_offset == 0 && w.selected_index == 0
                    &&& !w.interacting && w.signal_confirm is None && w.last_area_height == 0
                }))
            }),
    {
        let config = match config {
            Some(c) => c,
            None => ProcessConfig::default(),
        };
        let sort_by = if str_eq(config.sort_by.as_str(), "cpu") {
            SortColumn::Cpu
        } else if str_eq(config.sort_by.as_str(), "memory") {
            SortColumn::Memory
        } else if str_eq(config.sort_by.as_str(), "pid") {
            SortColumn::Pid
        } else if str_eq(config.sort_by.as_str(), "name") {
            SortColumn::Name
        } else {
            return Err(WidgetError::InvalidSortBy { value: config.sort_by });
        };
        let sort_order = if str_eq(config.sort_order.as_str(), "asc") {
            SortOrder::Asc
        } else if str_eq(config.sort_order.as_str(), "desc") {
            SortOrder::Desc
        } else {
            return Err(WidgetError::InvalidSortOrder { value: config.sort_order });
        };
        if config.count == 0 {
            return Err(WidgetError::ZeroProcessCount);
        }
        Ok(ProcessWidget {
            id,
            config,
            process_count: 0,
            scroll_offset: 0,
            selected_index: 0,
            sort_by,
            sort_order,
            interacting: false,
            signal_confirm: None,
            last_area_height: 0,
        })
    }

    pub fn id(&self) -> (r: &str)
        ensures
            r@ == self.id@,
    {
        self.id.as_str()
    }

    pub fn name(&self) -> (r: &'static str)
        ensures
            r@ == "Processes"@,
    {
        "Processes"
    }

    pub fn widget_type(&self) -> (r: &'static str)
        ensures
            r@ == "processes"@,
    {
        "processes"
    }

    pub fn min_size(&self) -> (r: (u16, u16))
        ensures
            r == (15u16, 1u16),
    {
        (15, 1)
    }

    /// The widget has an interact mode.
    pub fn supports_interact(&self) -> (r: bool)
        ensures
            r,
    {
        true
    }

    /// Keeps the selection inside the list and scrolls it into view.
    pub fn adjust_scroll(&mut self)
        ensures
            (final(self).selected_index, final(self).scroll_offset) == adjusted(
                old(self).process_count,
                old(self).selected_index,
                old(self).scroll_offset,
                old(self).last_area_height,
                old(self).signal_confirm is Some,
            ),
            final(self).process_count == old(self).process_count,
            final(self).signal_confirm == old(self).signal_confirm,
            final(self).sort_by == old(self).sort_by,
            final(self).sort_order == old(self).sort_order,
            final(self).interacting == old(self).interacting,
            final(self).last_area_height == old(self).last_area_height,
            final(self).id == old(self).id,
            final(self).config == old(self).config,
    {
        if self.process_count == 0 {
            self.selected_index = 0;
            self.scroll_offset = 0;
            return;
        }
        if self.selected_index >= self.process_count {
            self.selected_index = self.process_count - 1;
        }
        let confirm_rows: u16 = if self.signal_confirm.is_some() { 1 } else { 0 };
        let visible_rows = self.last_area_height.saturating_sub(1 + confirm_rows) as usize;
        if visible_rows == 0 {
            return;
        }
        if self.selected_index < self.scroll_offset {
            self.scroll_offset = self.selected_index;
        }
        if self.selected_index - self.scroll_offset >= visible_rows {
            self.scroll_offset = self.selected_index.saturating_sub(visible_rows - 1);
        }
    }

    /// A new list of `len` processes (sorted and cut to `count` by the
    /// caller): the selection is kept inside it and in view, and an answered
    /// signal prompt is cleared.
    pub fn after_data(&mut self, len: usize)
        ensures
            final(self).process_count == len,
            ({
                let (sel, scroll) = adjusted(
                    len,
                    old(self).selected_index,
                    old(self).scroll_offset,
                    old(self).last_area_height,
                    old(self).signal_confirm is Some,
                );
                final(self).selected_index == sel && final(self).scroll_offset == scroll
            }),
            match old(self).signal_confirm {
                Some(c) => if c.result is Some {
                    final(self).signal_confirm is None
                } else {
                    final(self).signal_confirm == old(self).signal_confirm
                },
                None => final(self).signal_confirm is None,
            },
            final(self).sort_by == old(self).sort_by,
            final(self).sort_order == old(self).sort_order,
            final(self).interacting == old(self).interacting,
    {
        self.process_count = len;
        if len > 0 && self.selected_index >= len {
            self.selected_index = len - 1;
        }
        self.adjust_scroll();
        let answered = match &self.signal_confirm {
            Some(c) => c.result.is_some(),
            None => false,
        };
        if answered {
            self.signal_confirm = None;
        }
    }

    /// Interact mode was entered or left; leaving it drops a signal prompt.
    pub fn notify_interact(&mut self, active: bool)
        ensures
            final(self).interacting == active,
            !active ==> final(self).signal_confirm is None,
            active ==> final(self).signal_confirm == old(self).signal_confirm,
            final(self).selected_index == old(self).selected_index,
            final(self).scroll_offset == old(self).scroll_offset,
            final(self).process_count == old(self).process_count,
    {
        self.interacting = active;
        if !active {
            self.signal_confirm = None;
        }
    }

    /// Records how sending the signal went.
    pub fn record_signal_result(&mut self, result: Result<(), String>)
        ensures
            match old(self).signal_confirm {
                Some(c) => final(self).signal_confirm matches Some(d) && d.pid == c.pid && d.name == c.name
                    && d.result == Some(result),
                None => final(self).signal_confirm is None,
            },
            final(self).selected_index == old(self).selected_index,
            final(self).scroll_offset == old(self).scroll_offset,
            final(self).interacting == old(self).interacting,
    {
        let confirm = self.signal_confirm.take();
        match confirm {
            Some(c) => {
                self.signal_confirm = Some(SignalConfirm { pid: c.pid, name: c.name, result: Some(result) });
            },
            None => {},
        }
    }

    /// A key press. `selected` is the process at the selection (its pid
    /// and name), if the list has one there; `own_pid` is this program's.
    pub fn handle_key(&mut self, code: KeyCode, selected: Option<(u32, String)>, own_pid: u32) -> (r: ProcessKeyOutcome)
        ensures
            final(self).id == old(self).id,
            final(self).config == old(self).config,
            final(self).process_count == old(self).process_count,
            final(self).interacting == old(self).interacting,
            final(self).last_area_height == old(self).last_area_height,
            // Not interacting: only Enter does anything, and only with room and processes.
            !old(self).interacting ==> r == (ProcessKeyOutcome {
                action: if code == KeyCode::Enter && old(self).last_area_height >= 9 && old(self).process_count > 0 {
                    Some(Action::EnterInteract)
                } else {
                    None
                },
                resort: false,
                send_signal: None,
            }) && *final(self) == *old(self),
            // Too little room: leave interact mode.
            old(self).interacting && old(self).last_area_height < 9 ==> r == (ProcessKeyOutcome {
                action: Some(Action::ExitInteract),
                resort: false,
                send_signal: None,
            }) && *final(self) == *old(self),
            // A signal prompt takes the key.
            old(self).interacting && old(self).last_area_height >= 9 && old(self).signal_confirm is Some ==> {
                let c = old(self).signal_confirm->0;
                &&& r.action is None && !r.resort
                &&& final(self).selected_index == old(self).selected_index
                &&& final(self).scroll_offset == old(self).scroll_offset
                &&& final(self).sort_by == old(self).sort_by
                &&& final(self).sort_order == old(self).sort_order
                &&& (c.result is Some ==> final(self).signal_confirm is None && r.send_signal is None)
                &&& (c.result is None && code == KeyCode::Char('y') ==> r.send_signal == Some(c.pid)
                    && final(self).signal_confirm == old(self).signal_confirm)
                &&& (c.result is None && (code == KeyCode::Char('n') || code == KeyCode::Esc)
                    ==> final(self).signal_confirm is None && r.send_signal is None)
                &&& (c.result is None && code != KeyCode::Char('y') && code != KeyCode::Char('n') && code
                    != KeyCode::Esc ==> final(self).signal_confirm == old(self).signal_confirm && r.send_signal is None)
            },
            // Browsing.
            old(self).interacting && old(self).last_area_height >= 9 && old(self).signal_confirm is None ==> {
                let s = old(self);
                let moved = |sel: usize| adjusted(s.process_count, sel, s.scroll_offset, s.last_area_height, false);
                &&& r.send_signal is None
                &&& (code == KeyCode::Esc ==> r.action == Some(Action::ExitInteract) && !r.resort
                    && *final(self) == *s)
                &&& (code == KeyCode::Char('j') || code == KeyCode::Down || code == KeyCode::Char('k') || code
                    == KeyCode::Up ==> final(self).sort_by == s.sort_by && final(self).sort_order == s.sort_order
                    && final(self).signal_confirm == s.signal_confirm)
                &&& (code == KeyCode::Char('s') || code == KeyCode::Char('S') ==> final(self).selected_index
                    == s.selected_index && final(self).scroll_offset == s.scroll_offset && final(self).signal_confirm
                    == s.signal_confirm)
                &&& (code == KeyCode::Char('x') ==> final(self).sort_by == s.sort_by && final(self).sort_order
                    == s.sort_order)
                &&& (code != KeyCode::Esc && code != KeyCode::Char('j') && code != KeyCode::Down && code
                    != KeyCode::Char('k') && code != KeyCode::Up && code != KeyCode::Char('s') && code
                    != KeyCode::Char('S') && code != KeyCode::Char('x') ==> r == (ProcessKeyOutcome {
                    action: None,
                    resort: false,
                    send_signal: None,
                }) && *final(self) == *s)
                &&& ((code == KeyCode::Char('j') || code == KeyCode::Down) ==> r.action is None && !r.resort && if s.selected_index + 1 < s.process_count {
                    (final(self).selected_index, final(self).scroll_offset) == moved((s.selected_index + 1) as usize)
                } else {
                    final(self).selected_index == s.selected_index && final(self).scroll_offset == s.scroll_offset
                })
                &&& ((code == KeyCode::Char('k') || code == KeyCode::Up) ==> r.action is None && !r.resort && if s.selected_index > 0 {
                    (final(self).selected_index, final(self).scroll_offset) == moved((s.selected_index - 1) as usize)
                } else {
                    final(self).selected_index == s.selected_index && final(self).scroll_offset == s.scroll_offset
                })
                &&& (code == KeyCode::Char('s') ==> r.action is None && r.resort && final(self).sort_by == s.sort_by.next_spec()
                    && final(self).sort_order == s.sort_order)
                &&& (code == KeyCode::Char('S') ==> r.action is None && r.resort && final(self).sort_order == s.sort_order.toggle_spec()
                    && final(self).sort_by == s.sort_by)
                &&& (code == KeyCode::Char('x') ==> r.action is None && !r.resort && match selected {
                    Some((pid, name)) => final(self).signal_confirm matches Some(c) && c.pid == pid && c.name == name
                        && (pid == own_pid ==> (c.result matches Some(Err(msg)) && msg@ == "Cannot signal own process"@))
                        && (pid != own_pid ==> c.result is None)
                        && (final(self).selected_index, final(self).scroll_offset) == adjusted(
                            s.process_count,
                            s.selected_index,
                            s.scroll_offset,
                            s.last_area_height,
                            true,
                        ),
                    None => *final(self) == *s,
                })
            },
    {
        let none = ProcessKeyOutcome { action: None, resort: false, send_signal: None };
        if !self.interacting {
            if code == KeyCode::Enter && self.last_area_height >= 9 && self.process_count > 0 {
                return ProcessKeyOutcome { action: Some(Action::EnterInteract), resort: false, send_signal: None };
            }
            return none;
        }
        if self.last_area_height < 9 {
            return ProcessKeyOutcome { action: Some(Action::ExitInteract), resort: false, send_signal: None };
        }
        let pending = match &self.signal_confirm {
            Some(c) => Some((c.pid, c.result.is_some())),
            None => None,
        };
        match pending {
            Some((pid, answered)) => {
                if answered {
                    self.signal_confirm = None;
                    return none;
                }
                match code {
                    KeyCode::Char('y') => {
                        return ProcessKeyOutcome { action: None, resort: false, send_signal: Some(pid) };
                    },
                    KeyCode::Char('n') | KeyCode::Esc => {
                        self.signal_confirm = None;
                        return none;
                    },
                    _ => {
                        return none;
                    },
                }
            },
            None => {},
        }
        match code {
            KeyCode::Esc => ProcessKeyOutcome { action: Some(Action::ExitInteract), resort: false, send_signal: None },
            KeyCode::Char('j') | KeyCode::Down => {
                if self.selected_index < self.process_count && self.process_count - self.selected_index > 1 {
                    self.selected_index = self.selected_index + 1;
                    self.adjust_scroll();
                }
                none
            },
            KeyCode::Char('k') | KeyCode::Up => {
                if self.selected_index > 0 {
                    self.selected_index = self.selected_index - 1;
                    self.adjust_scroll();
                }
                none
            },
            KeyCode::Char('s') => {
                self.sort_by = self.sort_by.next();
                ProcessKeyOutcome { action: None, resort: true, send_signal: None }
            },
            KeyCode::Char('S') => {
                self.sort_order = self.sort_order.toggle();
                ProcessKeyOutcome { action: None, resort: true, send_signal: None }
            },
            KeyCode::Char('x') => {
                match selected {
                    Some((pid, name)) => {
                        if pid == own_pid {
                            self.signal_confirm = Some(
                                SignalConfirm { pid, name, result: Some(Err("Cannot signal own process".to_string())) },
                            );
                        } else {
                            self.signal_confirm = Some(SignalConfirm { pid, name, result: None });
                        }
                        self.adjust_scroll();
                    },
                    None => {},
                }
                none
            },
            _ => none,
        }
    }

    /// Keeps the sorting, selection and scrolling of the widget this one
    /// replaces; interact mode is not kept.
    pub fn transfer_from(&mut self, previous: &ProcessWidget)
        ensures
            final(self).scroll_offset == previous.scroll_offset,
            final(self).selected_index == previous.selected_index,
            final(self).sort_by == previous.sort_by,
            final(self).sort_order == previous.sort_order,
            final(self).interacting == old(self).interacting,
            final(self).id == old(self).id,
            final(self).config == old(self).config,
    {
        self.scroll_offset = previous.scroll_offset;
        self.selected_index = previous.selected_index;
        self.sort_by = previous.sort_by;
        self.sort_order = previous.sort_order;
    }
}

/// The one-letter code of a process state.
pub fn status_str(status: &ProcessStatus) -> (r: &'static str)
    ensures
        r@ == match status {
            ProcessStatus::Running => "R"@,
            ProcessStatus::Sleeping => "S"@,
            ProcessStatus::Stopped => "T"@,
            ProcessStatus::Zombie => "Z"@,
            ProcessStatus::Other(_) => "?"@,
        },
{
    match status {
        ProcessStatus::Running => "R",
        ProcessStatus::Sleeping => "S",
        ProcessStatus::Stopped => "T",
        ProcessStatus::Zombie => "Z",
        ProcessStatus::Other(_) => "?",
    }
}

/// The first `n` characters of `s` (all of them when it has fewer).
pub open spec fn first_chars(s: Seq<char>, n: int) -> Seq<char> {
    if n >= s.len() {
        s
    } else {
        s.take(n)
    }
}

/// A name cut to fit `max_len`: unchanged when its UTF-8 length fits,
/// otherwise its first `max_len - 1` characters and an ellipsis (just the
/// first character when `max_len` is 1, nothing when it is 0).
pub fn truncate_name(name: &str, max_len: usize) -> (r: String)
    ensures
        r@ == (if max_len == 0 {
            Seq::<char>::empty()
        } else if name.len() <= max_len {
            name@
        } else if max_len <= 1 {
            first_chars(name@, max_len as int)
        } else {
            first_chars(name@, max_len - 1).push('\u{2026}')
        }),
{
    if max_len == 0 {
        return String::new();
    }
    if name.len() <= max_len {
        let all = crate::text::chars_of(name);
        return crate::text::string_from_chars(&all);
    }
    let v = crate::text::chars_of(name);
    let take = if max_len <= 1 { max_len } else { max_len - 1 };
    let n = if take < v.len() { take } else { v.len() };
    let mut out = crate::text::slice_chars(&v, 0, n);
    assert(out@ =~= first_chars(name@, take as int));
    if max_len > 1 {
        out.push('\u{2026}');
    }
    crate::text::string_from_chars(&out)
}

// ─── Ordering the list ───────────────────────────────────────────────────────

/// Position `x` comes before position `y` when the list is ordered by
/// `keys`: by key (descending or ascending), equal keys keeping their order.
pub open spec fn key_before(keys: Seq<u64>, descending: bool, x: int, y: int) -> bool {
    if keys[x] == keys[y] {
        x < y
    } else if descending {
        keys[x] > keys[y]
    } else {
        keys[x] < keys[y]
    }
}

/// `p` lists positions `0..n` of `keys`, each once, ordered by `key_before`.
pub open spec fn sorted_prefix(keys: Seq<u64>, descending: bool, p: Seq<usize>, n: int) -> bool {
    &&& p.len() == n
    &&& forall|i: int| 0 <= i < p.len() ==> p[i] < n
    &&& p.no_duplicates()
    &&& forall|a: int, b: int|
        0 <= a < b < p.len() ==> key_before(keys, descending, #[trigger] p[a] as int, #[trigger] p[b] as int)
}

proof fn lemma_key_before_trans(keys: Seq<u64>, descending: bool, x: int, y: int, z: int)
    requires
        key_before(keys, descending, x, y),
        key_before(keys, descending, y, z),
    ensures
        key_before(keys, descending, x, z),
{
}

/// The positions of `keys` in the order a stable sort by key gives
/// (descending or ascending): every position once, smaller keys first (or
/// larger, descending), equal keys in their original order. This is how the
/// process list is ordered by memory or by pid.
pub fn sort_positions(keys: &Vec<u64>, descending: bool) -> (r: Vec<usize>)
    ensures
        sorted_prefix(keys@, descending, r@, keys@.len() as int),
{
    let mut p: Vec<usize> = Vec::new();
    let mut i: usize = 0;
    while i < keys.len()
        invariant
            i <= keys.len(),
            sorted_prefix(keys@, descending, p@, i as int),
        decreases keys.len() - i,
    {
        let mut pos: usize = 0;
        while pos < p.len()
            invariant
                i < keys.len(),
                sorted_prefix(keys@, descending, p@, i as int),
                pos <= p.len(),
                forall|j: int| 0 <= j < pos ==> !key_before(keys@, descending, i as int, #[trigger] p@[j] as int),
            ensures
                pos <= p.len(),
                forall|j: int| 0 <= j < pos ==> !key_before(keys@, descending, i as int, #[trigger] p@[j] as int),
                pos < p.len() ==> key_before(keys@, descending, i as int, p@[pos as int] as int),
            decreases p.len() - pos,
        {
            let other = p[pos];
            let goes_before = if descending { keys[i] > keys[other] } else { keys[i] < keys[other] };
            assert(goes_before == key_before(keys@, descending, i as int, other as int));
            if goes_before {
                break;
            }
            pos += 1;
        }
        let ghost old_p = p@;
        proof {
            old_p.insert_ensures(pos as int, i);
        }
        p.insert(pos, i);
        proof {
            let q = p@;
            assert(q == old_p.insert(pos as int, i));
            assert forall|k: int| 0 <= k < q.len() implies q[k] < i + 1 by {
                if k < pos {
                    assert(q[k] == old_p[k]);
                } else if k > pos {
                    assert(q[k] == old_p[k - 1]);
                }
            }
            assert forall|a: int, b: int| 0 <= a < b < q.len() implies key_before(keys@, descending, #[trigger] q[a] as int, #[trigger] q[b] as int) by {
                if b < pos {
                    assert(q[a] == old_p[a] && q[b] == old_p[b]);
                } else if b == pos {
                    assert(q[a] == old_p[a]);
                } else if a > pos {
                    assert(q[a] == old_p[a - 1] && q[b] == old_p[b - 1]);
                } else if a == pos {
                    assert(q[b] == old_p[b - 1]);
                    if b - 1 > pos {
                        assert(key_before(keys@, descending, old_p[pos as int] as int, old_p[b - 1] as int));
                        lemma_key_before_trans(keys@, descending, i as int, old_p[pos as int] as int, old_p[b - 1] as int);
                    }
                } else {
                    assert(q[a] == old_p[a] && q[b] == old_p[b - 1]);
                }
            }
            assert forall|a: int, b: int| 0 <= a < q.len() && 0 <= b < q.len() && a != b implies q[a] != q[b] by {
                if a < pos { assert(q[a] == old_p[a]); } else if a > pos { assert(q[a] == old_p[a - 1]); }
                if b < pos { assert(q[b] == old_p[b]); } else if b > pos { assert(q[b] == old_p[b - 1]); }
            }
        }
        i += 1;
    }
    p
}

/// Position `x` comes before position `y` when the list is ordered by the
/// lowercased names `keys` (compared character by character, as `String`
/// compares): descending or ascending, equal names keeping their order.
pub open spec fn name_before(keys: Seq<Seq<char>>, descending: bool, x: int, y: int) -> bool {
    if keys[x] == keys[y] {
        x < y
    } else if descending {
        lex_lt(keys[y], keys[x])
    } else {
        lex_lt(keys[x], keys[y])
    }
}

/// `p` lists positions `0..n` of `keys`, each once, ordered by `name_before`.
pub open spec fn name_sorted_prefix(keys: Seq<Seq<char>>, descending: bool, p: Seq<usize>, n: int) -> bool {
    &&& p.len() == n
    &&& forall|i: int| 0 <= i < p.len() ==> p[i] < n
    &&& p.no_duplicates()
    &&& forall|a: int, b: int|
        0 <= a < b < p.len() ==> name_before(keys, descending, #[trigger] p[a] as int, #[trigger] p[b] as int)
}

proof fn lemma_lex_trans(a: Seq<char>, b: Seq<char>, c: Seq<char>)
    requires
        lex_lt(a, b),
        lex_lt(b, c),
    ensures
        lex_lt(a, c),
    decreases a.len(),
{
    if a.len() > 0 && b.len() > 0 && c.len() > 0 && a[0] == b[0] && b[0] == c[0] {
        lemma_lex_trans(a.drop_first(), b.drop_first(), c.drop_first());
    }
}

proof fn lemma_lex_total(a: Seq<char>, b: Seq<char>)
    ensures
        a != b ==> lex_lt(a, b) || lex_lt(b, a),
        !(lex_lt(a, b) && lex_lt(b, a)),
    decreases a.len(),
{
    if a.len() > 0 && b.len() > 0 && a[0] == b[0] {
        lemma_lex_total(a.drop_first(), b.drop_first());
        if a.drop_first() =~= b.drop_first() {
            assert forall|k: int| 0 <= k < a.len() implies a[k] == b[k] by {
                if k > 0 {
                    assert(a[k] == a.drop_first()[k - 1]);
                    assert(b[k] == b.drop_first()[k - 1]);
                }
            }
            assert(a =~= b);
        }
    } else if a.len() == 0 && b.len() == 0 {
        assert(a =~= b);
    }
}

proof fn lemma_name_before_trans(keys: Seq<Seq<char>>, descending: bool, x: int, y: int, z: int)
    requires
        name_before(keys, descending, x, y),
        name_before(keys, descending, y, z),
    ensures
        name_before(keys, descending, x, z),
{
    lemma_lex_total(keys[x], keys[y]);
    lemma_lex_total(keys[y], keys[z]);
    lemma_lex_total(keys[x], keys[z]);
    if keys[x] != keys[y] && keys[y] != keys[z] {
        if descending {
            lemma_lex_trans(keys[z], keys[y], keys[x]);
        } else {
            lemma_lex_trans(keys[x], keys[y], keys[z]);
        }
    }
}

/// `a` comes before `b`, character by character (`lex_lt`).
fn chars_lt(a: &Vec<char>, b: &Vec<char>) -> (r: bool)
    ensures
        r == lex_lt(a@, b@),
{
    let mut i: usize = 0;
    assert(a@.skip(0) =~= a@);
    assert(b@.skip(0) =~= b@);
    while i < a.len() && i < b.len()
        invariant
            i <= a.len(),
            i <= b.len(),
            lex_lt(a@, b@) == lex_lt(a@.skip(i as int), b@.skip(i as int)),
        decreases a.len() - i,
    {
        if a[i] != b[i] {
            return a[i] < b[i];
        }
        assert(a@.skip(i as int).drop_first() =~= a@.skip(i + 1));
        assert(b@.skip(i as int).drop_first() =~= b@.skip(i + 1));
        i += 1;
    }
    i == a.len() && i < b.len()
}

/// The positions of `names` in the order a stable sort by lowercased name
/// gives (descending or ascending): every position once, equal names in
/// their original order. This is how the process list is ordered by name.
pub fn sort_positions_by_name(names: &Vec<String>, descending: bool) -> (r: Vec<usize>)
    ensures
        name_sorted_prefix(names@.map_values(|n: String| lowercase(n@)), descending, r@, names@.len() as int),
{
    let ghost keys = names@.map_values(|n: String| lowercase(n@));
    let mut lowered: Vec<Vec<char>> = Vec::new();
    let mut k: usize = 0;
    while k < names.len()
        invariant
            k <= names.len(),
            keys == names@.map_values(|n: String| lowercase(n@)),
            lowered@.len() == k,
            forall|j: int| 0 <= j < k ==> (#[trigger] lowered@[j])@ == keys[j],
        decreases names.len() - k,
    {
        let l = to_lowercase(names[k].as_str());
        lowered.push(chars_of(l.as_str()));
        k += 1;
    }
    let mut p: Vec<usize> = Vec::new();
    let mut i: usize = 0;
    while i < names.len()
        invariant
            i <= names.len(),
            keys.len() == names.len(),
            lowered@.len() == names.len(),
            forall|j: int| 0 <= j < names.len() ==> (#[trigger] lowered@[j])@ == keys[j],
            name_sorted_prefix(keys, descending, p@, i as int),
        decreases names.len() - i,
    {
        let mut pos: usize = 0;
        while pos < p.len()
            invariant
                i < names.len(),
                keys.len() == names.len(),
                lowered@.len() == names.len(),
                forall|j: int| 0 <= j < names.len() ==> (#[trigger] lowered@[j])@ == keys[j],
                name_sorted_prefix(keys, descending, p@, i as int),
                pos <= p.len(),
                forall|j: int| 0 <= j < pos ==> !name_before(keys, descending, i as int, #[trigger] p@[j] as int),
            ensures
                pos <= p.len(),
                forall|j: int| 0 <= j < pos ==> !name_before(keys, descending, i as int, #[trigger] p@[j] as int),
                pos < p.len() ==> name_before(keys, descending, i as int, p@[pos as int] as int),
            decreases p.len() - pos,
        {
            let other = p[pos];
            let goes_before = if descending {
                chars_lt(&lowered[other], &lowered[i])
            } else {
                chars_lt(&lowered[i], &lowered[other])
            };
            proof {
                lemma_lex_total(keys[i as int], keys[other as int]);
                if keys[i as int] == keys[other as int] {
                    assert(!lex_lt(keys[i as int], keys[other as int]));
                }
            }
            assert(goes_before == name_before(keys, descending, i as int, other as int));
            if goes_before {
                break;
            }
            pos += 1;
        }
        let ghost old_p = p@;
        proof {
            old_p.insert_ensures(pos as int, i);
        }
        p.insert(pos, i);
        proof {
            let q = p@;
            assert(q == old_p.insert(pos as int, i));
            assert forall|k: int| 0 <= k < q.len() implies q[k] < i + 1 by {
                if k < pos {
                    assert(q[k] == old_p[k]);
                } else if k > pos {
                    assert(q[k] == old_p[k - 1]);
                }
            }
            assert forall|a: int, b: int| 0 <= a < b < q.len() implies name_before(keys, descending, #[trigger] q[a] as int, #[trigger] q[b] as int) by {
                if b < pos {
                    assert(q[a] == old_p[a] && q[b] == old_p[b]);
                } else if b == pos {
                    assert(q[a] == old_p[a]);
                    lemma_lex_total(keys[i as int], keys[old_p[a] as int]);
                } else if a > pos {
                    assert(q[a] == old_p[a - 1] && q[b] == old_p[b - 1]);
                } else if a == pos {
                    assert(q[b] == old_p[b - 1]);
                    if b - 1 > pos {
                        assert(name_before(keys, descending, old_p[pos as int] as int, old_p[b - 1] as int));
                        lemma_name_before_trans(keys, descending, i as int, old_p[pos as int] as int, old_p[b - 1] as int);
                    }
                } else {
                    assert(q[a] == old_p[a] && q[b] == old_p[b - 1]);
                }
            }
            assert forall|a: int, b: int| 0 <= a < q.len() && 0 <= b < q.len() && a != b implies q[a] != q[b] by {
                if a < pos { assert(q[a] == old_p[a]); } else if a > pos { assert(q[a] == old_p[a - 1]); }
                if b < pos { assert(q[b] == old_p[b]); } else if b > pos { assert(q[b] == old_p[b - 1]); }
            }
        }
        i += 1;
    }
    p
}

} // verus!
