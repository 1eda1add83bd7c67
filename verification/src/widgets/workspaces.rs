//! Hyprland workspaces per monitor and the active window.
use vstd::prelude::*;

use crate::data::types::{HyprlandData, WorkspaceInfo, WorkspaceView};
use crate::text::str_eq;

verus! {

broadcast use vstd::string::group_string_axioms;

pub fn default_true() -> (r: bool)
    ensures
        r,
{
    true
}

/// Settings of the workspaces widget.
#[derive(Debug)]
pub struct WorkspacesConfig {
    pub show_window_count: bool,
    pub show_active_window: bool,
}

impl Default for WorkspacesConfig {
    fn default() -> (r: Self)
        ensures
            r.show_window_count,
            r.show_active_window,
    {
        WorkspacesConfig { show_window_count: default_true(), show_active_window: default_true() }
    }
}

/// What the widget shows.
#[derive(Debug, Clone, Copy, PartialEq, Eq, Structural)]
pub enum WorkspacesLayout {
    /// No reading yet.
    Waiting,
    /// No compositor was found.
    NotDetected,
    /// The compositor was found but the connection is down.
    Reconnecting,
    /// One line of workspace numbers.
    Minimal,
    /// Workspaces per monitor.
    Medium,
    /// Workspaces per monitor and the active window.
    Full,
}

#[derive(Debug)]
pub struct WorkspacesWidget {
    pub id: String,
    pub config: WorkspacesConfig,
    pub data: Option<HyprlandData>,
}

impl WorkspacesWidget {
    /// A widget with the given settings (the defaults when there are none).
    pub fn new(id: String, config: Option<WorkspacesConfig>) -> (r: Self)
        ensures
            r.id == id,
            config matches Some(c) ==> r.config == c,
            config is None ==> r.config.show_window_count && r.config.show_active_window,
            r.data is None,
    {
        let config = match config {
            Some(c) => c,
            None => WorkspacesConfig::default(),
        };
        WorkspacesWidget { id, config, data: None }
    }

    pub fn id(&self) -> (r: &str)
        ensures
            r@ == self.id@,
    {
        self.id.as_str()
    }

    pub fn name(&self) -> (r: &'static str)
        ensures
            r@ == "Workspaces"@,
    {
        "Workspaces"
    }

    pub fn widget_type(&self) -> (r: &'static str)
        ensures
            r@ == "workspaces"@,
    {
        "workspaces"
    }

    pub fn min_size(&self) -> (r: (u16, u16))
        ensures
            r == (15u16, 1u16),
    {
        (15, 1)
    }

    /// The widget has no interact mode.
    pub fn supports_interact(&self) -> (r: bool)
        ensures
            !r,
    {
        false
    }

    /// Keeps the latest reading.
    pub fn apply(&mut self, data: &HyprlandData)
        ensures
            final(self).id == old(self).id,
            final(self).config == old(self).config,
            final(self).data matches Some(d) && d@ == data@,
    {
        self.data = Some(data.duplicate());
    }

    /// Keeps the reading of the widget this one replaces.
    pub fn transfer_from(&mut self, previous: &WorkspacesWidget)
        ensures
            final(self).id == old(self).id,
            final(self).config == old(self).config,
            match previous.data {
                Some(d) => final(self).data matches Some(e) && e@ == d@,
                None => final(self).data is None,
            },
    {
        self.data = match &previous.data {
            Some(d) => Some(d.duplicate()),
            None => None,
        };
    }

    /// What to show in an area of `width` by `height` cells.
    pub fn layout_for(&self, width: u16, height: u16) -> (r: WorkspacesLayout)
        ensures
            r == match self.data {
                None => WorkspacesLayout::Waiting,
                Some(d) => if !d.detected {
                    WorkspacesLayout::NotDetected
                } else if !d.connected {
                    WorkspacesLayout::Reconnecting
                } else if width < 20 || height < 3 {
                    WorkspacesLayout::Minimal
                } else if width >= 30 && height >= 5 && self.config.show_active_window {
                    WorkspacesLayout::Full
                } else {
                    WorkspacesLayout::Medium
                },
            },
    {
        match &self.data {
            None => WorkspacesLayout::Waiting,
            Some(d) => if !d.detected {
                WorkspacesLayout::NotDetected
            } else if !d.connected {
                WorkspacesLayout::Reconnecting
            } else if width < 20 || height < 3 {
                WorkspacesLayout::Minimal
            } else if width >= 30 && height >= 5 && self.config.show_active_window {
                WorkspacesLayout::Full
            } else {
                WorkspacesLayout::Medium
            },
        }
    }
}

pub open spec fn workspaces_view(v: Seq<WorkspaceInfo>) -> Seq<WorkspaceView> {
    v.map_values(|w: WorkspaceInfo| w@)
}

/// Where `x` goes among the first `n` entries of `s` (sorted by id) so that
/// it follows every entry whose id is not larger.
pub open spec fn id_insert_pos(s: Seq<WorkspaceView>, x: WorkspaceView, n: int) -> int
    decreases n,
{
    if n <= 0 {
        0
    } else if s[n - 1].id <= x.id {
        n
    } else {
        id_insert_pos(s, x, n - 1)
    }
}

/// `s` ordered by id; entries with the same id keep their order (a stable
/// sort).
pub open spec fn by_id(s: Seq<WorkspaceView>) -> Seq<WorkspaceView>
    decreases s.len(),
{
    if s.len() == 0 {
        seq![]
    } else {
        let sorted = by_id(s.drop_last());
        sorted.insert(id_insert_pos(sorted, s.last(), sorted.len() as int), s.last())
    }
}

/// The workspaces ordered by id, as the widget lists them.
pub fn workspaces_by_id(ws: &Vec<WorkspaceInfo>) -> (r: Vec<WorkspaceInfo>)
    ensures
        workspaces_view(r@) == by_id(workspaces_view(ws@)),
{
    let ghost input = workspaces_view(ws@);
    let mut sorted: Vec<WorkspaceInfo> = Vec::new();
    let n = ws.len();
    let mut i: usize = 0;
    while i < n
        invariant
            i <= n,
            n == ws.len(),
            input == workspaces_view(ws@),
            workspaces_view(sorted@) == by_id(input.take(i as int)),
        decreases n - i,
    {
        let x = ws[i].duplicate();
        assert(x@ == input[i as int]);
        let mut pos: usize = sorted.len();
        let ghost ss = workspaces_view(sorted@);
        while pos > 0 && sorted[pos - 1].id > x.id
            invariant
                pos <= sorted.len(),
                ss == workspaces_view(sorted@),
                id_insert_pos(ss, x@, ss.len() as int) == id_insert_pos(ss, x@, pos as int),
            decreases pos,
        {
            assert(ss[pos - 1] == sorted@[pos - 1]@);
            pos -= 1;
        }
        proof {
            if pos > 0 {
                assert(ss[pos - 1] == sorted@[pos - 1]@);
            }
        }
        let ghost xv = x@;
        sorted.insert(pos, x);
        assert(input.take(i + 1).drop_last() =~= input.take(i as int));
        assert(input.take(i + 1).last() == xv);
        assert(workspaces_view(sorted@) =~= ss.insert(pos as int, xv));
        i += 1;
    }
    assert(input.take(n as int) =~= input);
    sorted
}

/// The workspaces of `ws` on the monitor named `monitor`, in order.
pub fn workspaces_on(ws: &Vec<WorkspaceInfo>, monitor: &str) -> (r: Vec<WorkspaceInfo>)
    ensures
        workspaces_view(r@) == workspaces_view(ws@).filter(|w: WorkspaceView| w.monitor == monitor@),
{
    let ghost input = workspaces_view(ws@);
    let mut out: Vec<WorkspaceInfo> = Vec::new();
    let mut i: usize = 0;
    while i < ws.len()
        invariant
            i <= ws.len(),
            input == workspaces_view(ws@),
            workspaces_view(out@) == input.take(i as int).filter(|w: WorkspaceView| w.monitor == monitor@),
        decreases ws.len() - i,
    {
        assert(input.take(i + 1).drop_last() =~= input.take(i as int));
        assert(input.take(i + 1).last() == ws@[i as int]@);
        proof {
            reveal(Seq::filter);
        }
        if str_eq(ws[i].monitor.as_str(), monitor) {
            let ghost before = workspaces_view(out@);
            out.push(ws[i].duplicate());
            assert(workspaces_view(out@) =~= before.push(ws@[i as int]@));
        }
        i += 1;
    }
    assert(input.take(ws.len() as int) =~= input);
    out
}

} // verus!
