//! The Hyprland compositor: which events change the workspace view, how
//! long to wait before reconnecting, and the state reported to the widget.
use vstd::prelude::*;

use crate::data::types::{HyprlandData, MonitorInfo, MonitorView, WorkspaceInfo, WorkspaceView};
use crate::theme::opt_view;
use crate::text::{chars_of, find_chars, find_first, str_eq, string_of_range};

verus! {

broadcast use vstd::string::group_string_axioms;

/// The event name of a line of Hyprland's event socket: what precedes the
/// first `>>` (the whole line when there is none).
pub open spec fn event_type(line: Seq<char>) -> Seq<char> {
    match find_first(line, seq!['>', '>']) {
        Some(k) => line.subrange(0, k),
        None => line,
    }
}

/// The events after which the workspace view is fetched again.
pub open spec fn workspace_events() -> Seq<Seq<char>> {
    seq![
        "workspace"@,
        "createworkspace"@,
        "createworkspacev2"@,
        "destroyworkspace"@,
        "destroyworkspacev2"@,
        "moveworkspace"@,
        "moveworkspacev2"@,
        "activewindow"@,
        "activewindowv2"@,
        "focusedmon"@,
    ]
}

/// The event on `event_line` changes workspaces, monitors or the active
/// window.
pub fn is_workspace_event(event_line: &str) -> (r: bool)
    ensures
        r == workspace_events().contains(event_type(event_line@)),
{
    let v = chars_of(event_line);
    let sep: Vec<char> = vec!['>', '>'];
    assert(sep@ =~= seq!['>', '>']);
    let end = match find_chars(&v, &sep) {
        Some(k) => k,
        None => v.len(),
    };
    let name = string_of_range(&v, 0, end);
    assert(v@.subrange(0, v@.len() as int) =~= v@);
    assert(name@ == event_type(event_line@));
    let names: [&str; 10] = [
        "workspace",
        "createworkspace",
        "createworkspacev2",
        "destroyworkspace",
        "destroyworkspacev2",
        "moveworkspace",
        "moveworkspacev2",
        "activewindow",
        "activewindowv2",
        "focusedmon",
    ];
    let mut i: usize = 0;
    while i < 10
        invariant
            i <= 10,
            name@ == event_type(event_line@),
            names@.map_values(|s: &str| s@) == workspace_events(),
            forall|j: int| 0 <= j < i ==> workspace_events()[j] != name@,
        decreases 10 - i,
    {
        assert(workspace_events()[i as int] == names@[i as int]@);
        if str_eq(names[i], name.as_str()) {
            return true;
        }
        i += 1;
    }
    false
}

/// The wait before the next reconnection attempt: twice the last one, at
/// most 30 seconds.
pub fn next_backoff(backoff_secs: u64) -> (r: u64)
    requires
        backoff_secs <= 30,
    ensures
        r == (if 2 * backoff_secs < 30 { 2 * backoff_secs } else { 30 }),
{
    let doubled = backoff_secs * 2;
    if doubled < 30 {
        doubled
    } else {
        30
    }
}

// ─── hyprctl JSON replies ────────────────────────────────────────────────────

/// The fields of one monitor object of `hyprctl monitors -j`: `id`,
/// `name` and `activeWorkspace.id`, each present only when it has the
/// expected JSON type.
pub type MonitorRow = (Option<i64>, Option<String>, Option<i64>);

/// The fields of one workspace object of `hyprctl workspaces -j`: `id`,
/// `name`, `monitor` and `windows`.
pub type WorkspaceRow = (Option<i64>, Option<String>, Option<String>, Option<u64>);

pub open spec fn monitor_rows_view(v: Seq<MonitorRow>) -> Seq<(Option<i64>, Option<Seq<char>>, Option<i64>)> {
    v.map_values(|t: MonitorRow| (t.0, opt_view(t.1), t.2))
}

pub open spec fn workspace_rows_view(v: Seq<WorkspaceRow>) -> Seq<(Option<i64>, Option<Seq<char>>, Option<Seq<char>>, Option<u64>)> {
    v.map_values(|t: WorkspaceRow| (t.0, opt_view(t.1), opt_view(t.2), t.3))
}

/// What `serde_json` reads from `json` as an array of monitor objects:
/// the fields of each element, or `None` when the text is not such an array.
pub uninterp spec fn monitor_fields(json: Seq<char>) -> Option<Seq<(Option<i64>, Option<Seq<char>>, Option<i64>)>>;

/// What `serde_json` reads from `json` as an array of workspace objects.
pub uninterp spec fn workspace_fields(json: Seq<char>) -> Option<Seq<(Option<i64>, Option<Seq<char>>, Option<Seq<char>>, Option<u64>)>>;

/// The string `title` of the JSON object `json`, if it is one and has it.
pub uninterp spec fn window_title(json: Seq<char>) -> Option<Seq<char>>;

/// `serde_json::from_str::<Vec<serde_json::Value>>`, then for each element
/// `get("id").as_i64()`, `get("name").as_str()` and
/// `get("activeWorkspace").get("id").as_i64()`. The result is named by
/// `monitor_fields`.
#[verifier::external_body]
fn read_monitor_rows(json: &str) -> (r: Option<Vec<MonitorRow>>)
    ensures
        match r {
            Some(v) => monitor_fields(json@) == Some(monitor_rows_view(v@)),
            None => monitor_fields(json@) is None,
        },
{
    let values = serde_json::from_str::<Vec<serde_json::Value>>(json).ok()?;
    Some(values.iter().map(|v| (
        v.get("id").and_then(|x| x.as_i64()),
        v.get("name").and_then(|x| x.as_str()).map(|x| x.to_string()),
        v.get("activeWorkspace").and_then(|w| w.get("id")).and_then(|x| x.as_i64()),
    )).collect())
}

/// `serde_json::from_str::<Vec<serde_json::Value>>`, then for each element
/// `get("id").as_i64()`, `get("name").as_str()`, `get("monitor").as_str()`
/// and `get("windows").as_u64()`. The result is named by `workspace_fields`.
#[verifier::external_body]
fn read_workspace_rows(json: &str) -> (r: Option<Vec<WorkspaceRow>>)
    ensures
        match r {
            Some(v) => workspace_fields(json@) == Some(workspace_rows_view(v@)),
            None => workspace_fields(json@) is None,
        },
{
    let values = serde_json::from_str::<Vec<serde_json::Value>>(json).ok()?;
    Some(values.iter().map(|v| (
        v.get("id").and_then(|x| x.as_i64()),
        v.get("name").and_then(|x| x.as_str()).map(|x| x.to_string()),
        v.get("monitor").and_then(|x| x.as_str()).map(|x| x.to_string()),
        v.get("windows").and_then(|x| x.as_u64()),
    )).collect())
}

/// `serde_json::from_str::<serde_json::Value>`, then `get("title").as_str()`.
/// The result is named by `window_title`.
#[verifier::external_body]
fn read_window_title(json: &str) -> (r: Option<String>)
    ensures
        opt_view(r) == window_title(json@),
{
    let value: serde_json::Value = serde_json::from_str(json).ok()?;
    value.get("title").and_then(|x| x.as_str()).map(|x| x.to_string())
}

/// The monitors among `rows` that have all three fields, in order; the ids
/// are taken as `i32` (wrapping, as `as` does).
pub open spec fn monitors_of(rows: Seq<(Option<i64>, Option<Seq<char>>, Option<i64>)>) -> Seq<MonitorView>
    decreases rows.len(),
{
    if rows.len() == 0 {
        seq![]
    } else {
        let prev = monitors_of(rows.drop_last());
        match rows.last() {
            (Some(id), Some(name), Some(ws)) => prev.push(
                MonitorView { id: id as i32, name, active_workspace_id: ws as i32 },
            ),
            _ => prev,
        }
    }
}

/// The workspaces among `rows` that have all four fields, in order.
pub open spec fn workspaces_of(rows: Seq<(Option<i64>, Option<Seq<char>>, Option<Seq<char>>, Option<u64>)>) -> Seq<WorkspaceView>
    decreases rows.len(),
{
    if rows.len() == 0 {
        seq![]
    } else {
        let prev = workspaces_of(rows.drop_last());
        match rows.last() {
            (Some(id), Some(name), Some(monitor), Some(w)) => prev.push(
                WorkspaceView { id: id as i32, name, monitor, window_count: w as u32 },
            ),
            _ => prev,
        }
    }
}

/// Parses `hyprctl monitors -j` output: every monitor object with an
/// integer `id`, a string `name` and an integer `activeWorkspace.id`;
/// nothing when the text is not a JSON array.
pub fn parse_monitors(json: &str) -> (r: Vec<MonitorInfo>)
    ensures
        r@.map_values(|m: MonitorInfo| m@) == match monitor_fields(json@) {
            Some(rows) => monitors_of(rows),
            None => Seq::<MonitorView>::empty(),
        },
{
    let rows = match read_monitor_rows(json) {
        Some(rows) => rows,
        None => return Vec::new(),
    };
    let ghost rv = monitor_rows_view(rows@);
    let mut out: Vec<MonitorInfo> = Vec::new();
    let mut i: usize = 0;
    while i < rows.len()
        invariant
            i <= rows.len(),
            rv == monitor_rows_view(rows@),
            out@.map_values(|m: MonitorInfo| m@) == monitors_of(rv.take(i as int)),
        decreases rows.len() - i,
    {
        assert(rv.take(i + 1).drop_last() =~= rv.take(i as int));
        assert(rv.take(i + 1).last() == rv[i as int]);
        let ghost before = out@;
        match &rows[i] {
            (Some(id), Some(name), Some(ws)) => {
                out.push(MonitorInfo {
                    id: #[verifier::truncate] (*id as i32),
                    name: name.clone(),
                    active_workspace_id: #[verifier::truncate] (*ws as i32),
                });
                assert(out@.map_values(|m: MonitorInfo| m@) =~= before.map_values(|m: MonitorInfo| m@).push(
                    out@[before.len() as int]@,
                ));
            },
            _ => {},
        }
        i += 1;
    }
    assert(rv.take(rows.len() as int) =~= rv);
    out
}

/// Parses `hyprctl workspaces -j` output: every workspace object with an
/// integer `id`, string `name` and `monitor` and an unsigned `windows`.
pub fn parse_workspaces(json: &str) -> (r: Vec<WorkspaceInfo>)
    ensures
        r@.map_values(|w: WorkspaceInfo| w@) == match workspace_fields(json@) {
            Some(rows) => workspaces_of(rows),
            None => Seq::<WorkspaceView>::empty(),
        },
{
    let rows = match read_workspace_rows(json) {
        Some(rows) => rows,
        None => return Vec::new(),
    };
    let ghost rv = workspace_rows_view(rows@);
    let mut out: Vec<WorkspaceInfo> = Vec::new();
    let mut i: usize = 0;
    while i < rows.len()
        invariant
            i <= rows.len(),
            rv == workspace_rows_view(rows@),
            out@.map_values(|w: WorkspaceInfo| w@) == workspaces_of(rv.take(i as int)),
        decreases rows.len() - i,
    {
        assert(rv.take(i + 1).drop_last() =~= rv.take(i as int));
        assert(rv.take(i + 1).last() == rv[i as int]);
        let ghost before = out@;
        match &rows[i] {
            (Some(id), Some(name), Some(monitor), Some(w)) => {
                out.push(WorkspaceInfo {
                    id: #[verifier::truncate] (*id as i32),
                    name: name.clone(),
                    monitor: monitor.clone(),
                    window_count: #[verifier::truncate] (*w as u32),
                });
                assert(out@.map_values(|x: WorkspaceInfo| x@) =~= before.map_values(|x: WorkspaceInfo| x@).push(
                    out@[before.len() as int]@,
                ));
            },
            _ => {},
        }
        i += 1;
    }
    assert(rv.take(rows.len() as int) =~= rv);
    out
}

/// Parses `hyprctl activewindow -j` output: the window's `title`, if the
/// text is a JSON object with a string `title`.
pub fn parse_active_window(json: &str) -> (r: Option<String>)
    ensures
        opt_view(r) == window_title(json@),
{
    read_window_title(json)
}

impl HyprlandData {
    /// The state read from a running compositor: its monitors, workspaces
    /// and active window; the active workspace is that of the first monitor.
    pub fn connected_state(monitors: Vec<MonitorInfo>, workspaces: Vec<WorkspaceInfo>, active_window: Option<String>) -> (r: HyprlandData)
        ensures
            r.monitors@ == monitors@,
            r.workspaces@ == workspaces@,
            r.active_window == active_window,
            r.active_workspace == (if monitors@.len() > 0 {
                Some(monitors@[0].active_workspace_id)
            } else {
                None::<i32>
            }),
            r.connected,
            r.detected,
    {
        let active_workspace = if monitors.len() > 0 {
            Some(monitors[0].active_workspace_id)
        } else {
            None
        };
        HyprlandData { monitors, workspaces, active_workspace, active_window, connected: true, detected: true }
    }

    /// No connection: nothing to show. `detected` tells whether a compositor
    /// was found at all.
    pub fn disconnected(detected: bool) -> (r: HyprlandData)
        ensures
            r.monitors@.len() == 0,
            r.workspaces@.len() == 0,
            r.active_workspace is None,
            r.active_window is None,
            !r.connected,
            r.detected == detected,
    {
        HyprlandData {
            monitors: Vec::new(),
            workspaces: Vec::new(),
            active_workspace: None,
            active_window: None,
            connected: false,
            detected,
        }
    }
}

} // verus!
