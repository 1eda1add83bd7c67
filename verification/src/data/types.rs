//! The data the widgets receive. Readings that carry floating-point values
//! (CPU load, temperatures, I/O rates, per-process CPU) live outside the
//! library; these are the exact ones.
use vstd::prelude::*;

use crate::text::str_eq;

verus! {

broadcast use vstd::string::group_string_axioms;

/// Which source an update comes from.
#[derive(Debug, Clone, Copy, PartialEq, Eq, Structural)]
pub enum DataKind {
    Cpu,
    Memory,
    Network,
    Temps,
    Disk,
    Process,
    Packages,
    Services,
    Hyprland,
}

/// The widget type that shows updates of kind `k`.
pub open spec fn kind_widget_type(k: DataKind) -> Seq<char> {
    match k {
        DataKind::Cpu => "cpu"@,
        DataKind::Memory => "memory"@,
        DataKind::Network => "network"@,
        DataKind::Temps => "temps"@,
        DataKind::Disk => "disk"@,
        DataKind::Process => "processes"@,
        DataKind::Packages => "packages"@,
        DataKind::Services => "services"@,
        DataKind::Hyprland => "workspaces"@,
    }
}

/// An update of kind `kind` is meant for widgets of type `widget_type`.
pub fn kind_matches_widget_type(kind: DataKind, widget_type: &str) -> (r: bool)
    ensures
        r == (widget_type@ == kind_widget_type(kind)),
{
    match kind {
        DataKind::Cpu => str_eq(widget_type, "cpu"),
        DataKind::Memory => str_eq(widget_type, "memory"),
        DataKind::Network => str_eq(widget_type, "network"),
        DataKind::Temps => str_eq(widget_type, "temps"),
        DataKind::Disk => str_eq(widget_type, "disk"),
        DataKind::Process => str_eq(widget_type, "processes"),
        DataKind::Packages => str_eq(widget_type, "packages"),
        DataKind::Services => str_eq(widget_type, "services"),
        DataKind::Hyprland => str_eq(widget_type, "workspaces"),
    }
}

#[derive(Debug, Clone)]
pub struct MemoryData {
    pub total_mem: u64,
    pub used_mem: u64,
    pub total_swap: u64,
    pub used_swap: u64,
    pub top_processes: Vec<ProcessInfo>,
}

#[derive(Debug, Clone)]
pub struct ProcessInfo {
    pub name: String,
    pub pid: u32,
    pub memory_bytes: u64,
}

#[derive(Debug, Clone)]
pub struct NetworkData {
    pub interfaces: Vec<InterfaceData>,
}

#[derive(Debug, Clone)]
pub struct InterfaceData {
    pub name: String,
    pub bytes_sent: u64,
    pub bytes_received: u64,
}

#[derive(Debug, Clone, PartialEq)]
pub enum ProcessStatus {
    Running,
    Sleeping,
    Stopped,
    Zombie,
    Other(String),
}

#[derive(Debug)]
pub struct PackagesResult {
    pub instance_id: String,
    pub data: Result<PackagesData, String>,
}

#[derive(Debug, Clone)]
pub struct PackagesData {
    pub updates: Vec<PackageUpdate>,
}

#[derive(Debug, Clone)]
pub struct PackageUpdate {
    pub name: String,
    pub old_version: String,
    pub new_version: String,
}

#[derive(Debug)]
pub struct ServicesResult {
    pub instance_id: String,
    pub data: Result<ServicesData, String>,
}

#[derive(Debug, Clone)]
pub struct ServicesData {
    pub services: Vec<ServiceStatus>,
}

#[derive(Debug, Clone)]
pub struct ServiceStatus {
    pub name: String,
    pub active_state: ActiveState,
    pub sub_state: String,
}

#[derive(Debug, Clone, PartialEq)]
pub enum ActiveState {
    Active,
    Inactive,
    Failed,
    Activating,
    Deactivating,
    Other(String),
}

#[derive(Debug, Clone)]
pub struct HyprlandData {
    pub monitors: Vec<MonitorInfo>,
    pub workspaces: Vec<WorkspaceInfo>,
    pub active_workspace: Option<i32>,
    pub active_window: Option<String>,
    pub connected: bool,
    pub detected: bool,
}

#[derive(Debug, Clone)]
pub struct MonitorInfo {
    pub id: i32,
    pub name: String,
    pub active_workspace_id: i32,
}

#[derive(Debug, Clone)]
pub struct WorkspaceInfo {
    pub id: i32,
    pub name: String,
    pub monitor: String,
    pub window_count: u32,
}

// ─── Views ───────────────────────────────────────────────────────────────────

pub struct PackageUpdateView {
    pub name: Seq<char>,
    pub old_version: Seq<char>,
    pub new_version: Seq<char>,
}

impl View for PackageUpdate {
    type V = PackageUpdateView;

    open spec fn view(&self) -> PackageUpdateView {
        PackageUpdateView { name: self.name@, old_version: self.old_version@, new_version: self.new_version@ }
    }
}

pub enum ActiveStateView {
    Active,
    Inactive,
    Failed,
    Activating,
    Deactivating,
    Other(Seq<char>),
}

impl View for ActiveState {
    type V = ActiveStateView;

    open spec fn view(&self) -> ActiveStateView {
        match self {
            ActiveState::Active => ActiveStateView::Active,
            ActiveState::Inactive => ActiveStateView::Inactive,
            ActiveState::Failed => ActiveStateView::Failed,
            ActiveState::Activating => ActiveStateView::Activating,
            ActiveState::Deactivating => ActiveStateView::Deactivating,
            ActiveState::Other(s) => ActiveStateView::Other(s@),
        }
    }
}

pub struct ServiceStatusView {
    pub name: Seq<char>,
    pub active_state: ActiveStateView,
    pub sub_state: Seq<char>,
}

impl View for ServiceStatus {
    type V = ServiceStatusView;

    open spec fn view(&self) -> ServiceStatusView {
        ServiceStatusView { name: self.name@, active_state: self.active_state@, sub_state: self.sub_state@ }
    }
}

pub struct ProcessInfoView {
    pub name: Seq<char>,
    pub pid: u32,
    pub memory_bytes: u64,
}

impl View for ProcessInfo {
    type V = ProcessInfoView;

    open spec fn view(&self) -> ProcessInfoView {
        ProcessInfoView { name: self.name@, pid: self.pid, memory_bytes: self.memory_bytes }
    }
}

pub open spec fn updates_view(v: Seq<PackageUpdate>) -> Seq<PackageUpdateView> {
    v.map_values(|u: PackageUpdate| u@)
}

pub open spec fn statuses_view(v: Seq<ServiceStatus>) -> Seq<ServiceStatusView> {
    v.map_values(|u: ServiceStatus| u@)
}

pub open spec fn infos_view(v: Seq<ProcessInfo>) -> Seq<ProcessInfoView> {
    v.map_values(|u: ProcessInfo| u@)
}


pub struct MonitorView {
    pub id: i32,
    pub name: Seq<char>,
    pub active_workspace_id: i32,
}

impl View for MonitorInfo {
    type V = MonitorView;

    open spec fn view(&self) -> MonitorView {
        MonitorView { id: self.id, name: self.name@, active_workspace_id: self.active_workspace_id }
    }
}

pub struct WorkspaceView {
    pub id: i32,
    pub name: Seq<char>,
    pub monitor: Seq<char>,
    pub window_count: u32,
}

impl View for WorkspaceInfo {
    type V = WorkspaceView;

    open spec fn view(&self) -> WorkspaceView {
        WorkspaceView { id: self.id, name: self.name@, monitor: self.monitor@, window_count: self.window_count }
    }
}

pub struct HyprlandView {
    pub monitors: Seq<MonitorView>,
    pub workspaces: Seq<WorkspaceView>,
    pub active_workspace: Option<i32>,
    pub active_window: Option<Seq<char>>,
    pub connected: bool,
    pub detected: bool,
}

impl View for HyprlandData {
    type V = HyprlandView;

    open spec fn view(&self) -> HyprlandView {
        HyprlandView {
            monitors: self.monitors@.map_values(|m: MonitorInfo| m@),
            workspaces: self.workspaces@.map_values(|w: WorkspaceInfo| w@),
            active_workspace: self.active_workspace,
            active_window: crate::theme::opt_view(self.active_window),
            connected: self.connected,
            detected: self.detected,
        }
    }
}

impl PackageUpdate {
    pub fn duplicate(&self) -> (r: PackageUpdate)
        ensures
            r@ == self@,
    {
        PackageUpdate {
            name: self.name.clone(),
            old_version: self.old_version.clone(),
            new_version: self.new_version.clone(),
        }
    }
}

impl ActiveState {
    pub fn duplicate(&self) -> (r: ActiveState)
        ensures
            r@ == self@,
    {
        match self {
            ActiveState::Active => ActiveState::Active,
            ActiveState::Inactive => ActiveState::Inactive,
            ActiveState::Failed => ActiveState::Failed,
            ActiveState::Activating => ActiveState::Activating,
            ActiveState::Deactivating => ActiveState::Deactivating,
            ActiveState::Other(s) => ActiveState::Other(s.clone()),
        }
    }
}

impl ServiceStatus {
    pub fn duplicate(&self) -> (r: ServiceStatus)
        ensures
            r@ == self@,
    {
        ServiceStatus {
            name: self.name.clone(),
            active_state: self.active_state.duplicate(),
            sub_state: self.sub_state.clone(),
        }
    }
}

impl ProcessInfo {
    pub fn duplicate(&self) -> (r: ProcessInfo)
        ensures
            r@ == self@,
    {
        ProcessInfo { name: self.name.clone(), pid: self.pid, memory_bytes: self.memory_bytes }
    }
}

impl MonitorInfo {
    pub fn duplicate(&self) -> (r: MonitorInfo)
        ensures
            r@ == self@,
    {
        MonitorInfo { id: self.id, name: self.name.clone(), active_workspace_id: self.active_workspace_id }
    }
}

impl WorkspaceInfo {
    pub fn duplicate(&self) -> (r: WorkspaceInfo)
        ensures
            r@ == self@,
    {
        WorkspaceInfo {
            id: self.id,
            name: self.name.clone(),
            monitor: self.monitor.clone(),
            window_count: self.window_count,
        }
    }
}

pub fn clone_updates(v: &Vec<PackageUpdate>) -> (r: Vec<PackageUpdate>)
    ensures
        updates_view(r@) == updates_view(v@),
{
    let mut r: Vec<PackageUpdate> = Vec::new();
    let mut i: usize = 0;
    while i < v.len()
        invariant
            i <= v.len(),
            r@.len() == i,
            forall|j: int| 0 <= j < i ==> (#[trigger] r@[j])@ == v@[j]@,
        decreases v.len() - i,
    {
        r.push(v[i].duplicate());
        i += 1;
    }
    assert(updates_view(r@) =~= updates_view(v@));
    r
}

pub fn clone_statuses(v: &Vec<ServiceStatus>) -> (r: Vec<ServiceStatus>)
    ensures
        statuses_view(r@) == statuses_view(v@),
{
    let mut r: Vec<ServiceStatus> = Vec::new();
    let mut i: usize = 0;
    while i < v.len()
        invariant
            i <= v.len(),
            r@.len() == i,
            forall|j: int| 0 <= j < i ==> (#[trigger] r@[j])@ == v@[j]@,
        decreases v.len() - i,
    {
        r.push(v[i].duplicate());
        i += 1;
    }
    assert(statuses_view(r@) =~= statuses_view(v@));
    r
}

pub fn clone_infos(v: &Vec<ProcessInfo>, limit: usize) -> (r: Vec<ProcessInfo>)
    ensures
        infos_view(r@) == (if v@.len() > limit { infos_view(v@).take(limit as int) } else { infos_view(v@) }),
{
    let mut r: Vec<ProcessInfo> = Vec::new();
    let mut i: usize = 0;
    while i < v.len() && i < limit
        invariant
            i <= v.len(),
            i <= limit,
            r@.len() == i,
            forall|j: int| 0 <= j < i ==> (#[trigger] r@[j])@ == v@[j]@,
        decreases v.len() - i,
    {
        r.push(v[i].duplicate());
        i += 1;
    }
    assert(infos_view(r@) =~= (if v@.len() > limit { infos_view(v@).take(limit as int) } else { infos_view(v@) }));
    r
}

impl HyprlandData {
    pub fn duplicate(&self) -> (r: HyprlandData)
        ensures
            r@ == self@,
    {
        let mut monitors: Vec<MonitorInfo> = Vec::new();
        let mut i: usize = 0;
        while i < self.monitors.len()
            invariant
                i <= self.monitors.len(),
                monitors@.len() == i,
                forall|j: int| 0 <= j < i ==> (#[trigger] monitors@[j])@ == self.monitors@[j]@,
            decreases self.monitors.len() - i,
        {
            monitors.push(self.monitors[i].duplicate());
            i += 1;
        }
        let mut workspaces: Vec<WorkspaceInfo> = Vec::new();
        let mut k: usize = 0;
        while k < self.workspaces.len()
            invariant
                k <= self.workspaces.len(),
                workspaces@.len() == k,
                forall|j: int| 0 <= j < k ==> (#[trigger] workspaces@[j])@ == self.workspaces@[j]@,
            decreases self.workspaces.len() - k,
        {
            workspaces.push(self.workspaces[k].duplicate());
            k += 1;
        }
        let r = HyprlandData {
            monitors,
            workspaces,
            active_workspace: self.active_workspace,
            active_window: crate::theme::clone_opt_string(&self.active_window),
            connected: self.connected,
            detected: self.detected,
        };
        assert(r@.monitors =~= self@.monitors);
        assert(r@.workspaces =~= self@.workspaces);
        r
    }
}
} // verus!
