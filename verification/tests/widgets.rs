use mise_tui::action::Action;
use mise_tui::data::types::{
    ActiveState, HyprlandData, MemoryData, MonitorInfo, PackageUpdate, PackagesData,
    PackagesResult, ProcessInfo, ProcessStatus, ServiceStatus, ServicesData, ServicesResult,
    WorkspaceInfo,
};
use mise_tui::keys::KeyCode;
use mise_tui::widgets::memory::{MemoryConfig, MemoryWidget};
use mise_tui::widgets::packages::{PackagesConfig, PackagesLayout, PackagesWidget};
use mise_tui::widgets::placeholder::PlaceholderWidget;
use mise_tui::widgets::processes::{
    status_str, truncate_name, ProcessConfig, ProcessWidget, SignalConfirm, SortColumn, SortOrder,
};
use mise_tui::widgets::services::{
    default_interval, default_scope, default_timeout, state_label, ServicesConfig, ServicesLayout,
    ServicesWidget,
};
use mise_tui::widgets::readings::{
    check_cpu_settings, check_disk_settings, check_network_settings, check_temps_mode,
    interface_selected, mount_selected, sensor_selected,
};
use mise_tui::widgets::workspaces::{
    workspaces_by_id, workspaces_on, WorkspacesConfig, WorkspacesLayout, WorkspacesWidget,
};
use mise_tui::widgets::WidgetError;

// ─── memory ─────────────────────────────────────────────────────────────────

#[test]
fn memory_default_config_values() {
    let w = MemoryWidget::new("memory".into(), None);
    assert!(w.config.show_swap);
    assert!(w.config.show_processes);
    assert_eq!(w.config.process_count, 5);
}

fn two_process_reading(a: u64, b: u64) -> MemoryData {
    MemoryData {
        total_mem: 16_000_000_000,
        used_mem: 8_000_000_000,
        total_swap: 4_000_000_000,
        used_swap: 1_000_000_000,
        top_processes: vec![
            ProcessInfo { name: "firefox".into(), pid: 1, memory_bytes: a },
            ProcessInfo { name: "chrome".into(), pid: 2, memory_bytes: b },
        ],
    }
}

#[test]
fn memory_handle_data_updates_state() {
    let mut w = MemoryWidget::new("memory".into(), None);
    w.apply(&two_process_reading(500_000_000, 400_000_000));
    assert_eq!(w.total_mem, 16_000_000_000);
    assert_eq!(w.used_mem, 8_000_000_000);
    assert_eq!(w.top_processes.len(), 2);
}

#[test]
fn handle_data_truncates_processes() {
    let config = MemoryConfig { show_swap: true, show_processes: true, process_count: 1 };
    let mut w = MemoryWidget::new("memory".into(), Some(config));
    w.apply(&MemoryData {
        total_mem: 1,
        used_mem: 1,
        total_swap: 0,
        used_swap: 0,
        top_processes: vec![
            ProcessInfo { name: "a".into(), pid: 1, memory_bytes: 100 },
            ProcessInfo { name: "b".into(), pid: 2, memory_bytes: 50 },
        ],
    });
    assert_eq!(w.top_processes.len(), 1);
}

#[test]
fn memory_swap_shown_only_when_present() {
    let mut w = MemoryWidget::new("memory".into(), None);
    assert!(!w.shows_swap());
    w.apply(&two_process_reading(1, 2));
    assert!(w.shows_swap());
    let mut hidden = MemoryWidget::new(
        "m".into(),
        Some(MemoryConfig { show_swap: false, show_processes: true, process_count: 5 }),
    );
    hidden.apply(&two_process_reading(1, 2));
    assert!(!hidden.shows_swap());
    assert_eq!(hidden.id(), "m");
    assert_eq!(hidden.widget_type(), "memory");
    assert_eq!(hidden.name(), "Memory");
}

// ─── packages ───────────────────────────────────────────────────────────────

fn linux_update() -> PackageUpdate {
    PackageUpdate {
        name: "linux".to_string(),
        old_version: "6.8.1".to_string(),
        new_version: "6.8.2".to_string(),
    }
}

#[test]
fn packages_default_config_values() {
    let w = PackagesWidget::new("packages".into(), None).unwrap();
    assert_eq!(w.config.mode, "list");
    assert!(w.config.warn_packages.is_empty());
    assert_eq!(w.config.timeout, 30);
    assert_eq!(w.config.interval, 1800);
}

#[test]
fn packages_invalid_mode_errors() {
    let config = PackagesConfig { mode: "invalid".to_string(), ..Default::default() };
    let err = PackagesWidget::new("packages".into(), Some(config)).unwrap_err();
    assert_eq!(err, WidgetError::InvalidPackagesMode { mode: "invalid".to_string() });
    assert_eq!(err.message(), "invalid packages mode: 'invalid'");
}

#[test]
fn packages_handle_data_updates_state() {
    let mut w = PackagesWidget::new("packages".into(), None).unwrap();
    // Set an error first to verify it gets cleared
    w.error = Some("old error".into());
    w.apply(&PackagesResult {
        instance_id: "packages".to_string(),
        data: Ok(PackagesData { updates: vec![linux_update()] }),
    });
    assert_eq!(w.updates.len(), 1);
    assert_eq!(w.updates[0].name, "linux");
    assert!(!w.loading);
    assert!(w.error.is_none());
}

#[test]
fn packages_handle_data_stores_error() {
    let mut w = PackagesWidget::new("packages".into(), None).unwrap();
    w.apply(&PackagesResult {
        instance_id: "packages".to_string(),
        data: Err("checkupdates not found".to_string()),
    });
    assert!(w.error.is_some());
    assert_eq!(w.error.as_deref(), Some("checkupdates not found"));
    assert!(!w.loading);
}

#[test]
fn packages_handle_data_ignores_mismatched_id() {
    let mut w = PackagesWidget::new("packages".into(), None).unwrap();
    w.apply(&PackagesResult {
        instance_id: "other_packages".to_string(),
        data: Ok(PackagesData { updates: vec![linux_update()] }),
    });
    assert!(w.updates.is_empty());
    assert!(w.loading); // still loading, unchanged
}

#[test]
fn warn_packages_matching() {
    let config = PackagesConfig { warn_packages: vec!["linux".to_string()], ..Default::default() };
    let mut w = PackagesWidget::new("packages".into(), Some(config)).unwrap();
    w.updates = vec![
        linux_update(),
        PackageUpdate {
            name: "vim".to_string(),
            old_version: "9.0".to_string(),
            new_version: "9.1".to_string(),
        },
    ];
    assert!(w.has_warnings());
}

#[test]
fn warn_packages_no_match() {
    let config = PackagesConfig { warn_packages: vec!["nvidia".to_string()], ..Default::default() };
    let mut w = PackagesWidget::new("packages".into(), Some(config)).unwrap();
    w.updates = vec![linux_update()];
    assert!(!w.has_warnings());
}

#[test]
fn packages_transfer_state_preserves_data() {
    let mut old = PackagesWidget::new("packages".into(), None).unwrap();
    old.updates = vec![linux_update()];
    old.loading = false;
    old.error = Some("test error".to_string());

    let mut new_w = PackagesWidget::new("packages".into(), None).unwrap();
    assert!(new_w.updates.is_empty());
    assert!(new_w.loading);
    assert!(new_w.error.is_none());

    new_w.transfer_from(&old);
    assert_eq!(new_w.updates.len(), 1);
    assert_eq!(new_w.updates[0].name, "linux");
    assert!(!new_w.loading);
    assert_eq!(new_w.error.as_deref(), Some("test error"));
}

#[test]
fn packages_layout_by_size_and_mode() {
    let w = PackagesWidget::new("packages".into(), None).unwrap();
    assert_eq!(w.layout_for(15, 3), PackagesLayout::Badge);
    assert_eq!(w.layout_for(14, 10), PackagesLayout::Label);
    assert_eq!(w.layout_for(40, 2), PackagesLayout::Label);
    assert_eq!(w.layout_for(40, 10), PackagesLayout::List);
    let badge = PackagesWidget::new(
        "p".into(),
        Some(PackagesConfig { mode: "badge".to_string(), ..Default::default() }),
    )
    .unwrap();
    assert_eq!(badge.layout_for(40, 10), PackagesLayout::Badge);
    assert_eq!(badge.min_size(), (15, 1));
}

// ─── services ───────────────────────────────────────────────────────────────

fn services_config(scope: &str, services: &[&str]) -> Option<ServicesConfig> {
    Some(ServicesConfig {
        scope: scope.to_string(),
        services: services.iter().map(|s| s.to_string()).collect(),
        timeout: default_timeout(),
        interval: default_interval(),
    })
}

fn sample_statuses() -> Vec<ServiceStatus> {
    vec![
        ServiceStatus {
            name: "sshd".to_string(),
            active_state: ActiveState::Active,
            sub_state: "running".to_string(),
        },
        ServiceStatus {
            name: "nginx".to_string(),
            active_state: ActiveState::Failed,
            sub_state: "failed".to_string(),
        },
    ]
}

#[test]
fn config_defaults() {
    let w = ServicesWidget::new("svc".into(), services_config(&default_scope(), &["sshd"])).unwrap();
    assert_eq!(w.config.scope, "system");
    assert_eq!(w.config.timeout, 10);
    assert_eq!(w.config.interval, 10);
}

#[test]
fn invalid_scope_errors() {
    let result = ServicesWidget::new("svc".into(), services_config("invalid", &["sshd"]));
    assert!(result.is_err());
    let msg = result.unwrap_err().message();
    assert!(msg.contains("invalid services scope"));
}

#[test]
fn missing_services_errors() {
    let result = ServicesWidget::new("svc".into(), None);
    assert!(result.is_err());
    let msg = result.unwrap_err().message();
    assert!(msg.contains("services widget requires"));
}

#[test]
fn empty_services_errors() {
    let result = ServicesWidget::new("svc".into(), services_config("system", &[]));
    assert!(result.is_err());
    let msg = result.unwrap_err().message();
    assert!(msg.contains("must not be empty"));
}

#[test]
fn services_handle_data_updates_state() {
    let mut w = ServicesWidget::new("svc".into(), services_config("system", &["sshd", "nginx"])).unwrap();
    assert!(w.loading);
    assert!(w.statuses.is_empty());
    w.apply(&ServicesResult {
        instance_id: "svc".to_string(),
        data: Ok(ServicesData { services: sample_statuses() }),
    });
    assert_eq!(w.statuses.len(), 2);
    assert!(!w.loading);
    assert!(w.error.is_none());
}

#[test]
fn services_handle_data_stores_error() {
    let mut w = ServicesWidget::new("svc".into(), services_config("system", &["sshd"])).unwrap();
    w.apply(&ServicesResult {
        instance_id: "svc".to_string(),
        data: Err("systemctl not found".to_string()),
    });
    assert!(!w.loading);
    assert_eq!(w.error.as_deref(), Some("systemctl not found"));
}

#[test]
fn services_handle_data_ignores_mismatched_id() {
    let mut w = ServicesWidget::new("svc".into(), services_config("system", &["sshd"])).unwrap();
    w.apply(&ServicesResult {
        instance_id: "other_svc".to_string(),
        data: Ok(ServicesData { services: sample_statuses() }),
    });
    assert!(w.loading); // still loading, not changed
    assert!(w.statuses.is_empty());
}

#[test]
fn services_transfer_state_preserves_data() {
    let mut old = ServicesWidget::new("svc".into(), services_config("system", &["sshd"])).unwrap();
    old.statuses = sample_statuses();
    old.loading = false;
    old.error = Some("previous error".to_string());

    let mut new_w = ServicesWidget::new("svc".into(), services_config("system", &["sshd"])).unwrap();
    assert!(new_w.statuses.is_empty());
    assert!(new_w.loading);

    new_w.transfer_from(&old);
    assert_eq!(new_w.statuses.len(), 2);
    assert!(!new_w.loading);
    assert_eq!(new_w.error.as_deref(), Some("previous error"));
}

#[test]
fn services_table_rows_put_failed_first() {
    let mut w = ServicesWidget::new("svc".into(), services_config("user", &["a"])).unwrap();
    w.statuses = vec![
        ServiceStatus { name: "a".into(), active_state: ActiveState::Active, sub_state: "running".into() },
        ServiceStatus { name: "b".into(), active_state: ActiveState::Failed, sub_state: "failed".into() },
        ServiceStatus { name: "c".into(), active_state: ActiveState::Inactive, sub_state: "dead".into() },
        ServiceStatus { name: "d".into(), active_state: ActiveState::Failed, sub_state: "failed".into() },
    ];
    let names: Vec<String> = w.table_rows().into_iter().map(|s| s.name).collect();
    assert_eq!(names, vec!["b", "d", "a", "c"]);
}

#[test]
fn services_layout_and_labels() {
    let mut w = ServicesWidget::new("svc".into(), services_config("system", &["a"])).unwrap();
    assert_eq!(w.layout_for(40, 10), ServicesLayout::Loading);
    w.loading = false;
    assert_eq!(w.layout_for(40, 10), ServicesLayout::Table);
    assert_eq!(w.layout_for(40, 5), ServicesLayout::Compact);
    assert_eq!(w.layout_for(10, 5), ServicesLayout::Label);
    w.error = Some("x".into());
    assert_eq!(w.layout_for(40, 10), ServicesLayout::Error);
    assert_eq!(state_label(&ActiveState::Deactivating), "deactivating");
    assert_eq!(state_label(&ActiveState::Other("maintenance".into())), "maintenance");
}

// ─── workspaces ─────────────────────────────────────────────────────────────

fn one_monitor() -> HyprlandData {
    HyprlandData {
        monitors: vec![MonitorInfo { id: 0, name: "DP-1".to_string(), active_workspace_id: 1 }],
        workspaces: vec![WorkspaceInfo {
            id: 1,
            name: "1".to_string(),
            monitor: "DP-1".to_string(),
            window_count: 2,
        }],
        active_workspace: Some(1),
        active_window: Some("Test".to_string()),
        connected: true,
        detected: true,
    }
}

#[test]
fn new_with_default_config() {
    let widget = WorkspacesWidget::new("workspaces".to_string(), None);
    assert_eq!(widget.id(), "workspaces");
    assert_eq!(widget.widget_type(), "workspaces");
    assert_eq!(widget.name(), "Workspaces");
    assert!(widget.config.show_window_count);
    assert!(widget.config.show_active_window);
}

#[test]
fn new_with_custom_config() {
    let config = WorkspacesConfig { show_window_count: false, show_active_window: false };
    let widget = WorkspacesWidget::new("workspaces".to_string(), Some(config));
    assert!(!widget.config.show_window_count);
    assert!(!widget.config.show_active_window);
}

#[test]
fn handle_data_stores_hyprland_data() {
    let mut widget = WorkspacesWidget::new("workspaces".to_string(), None);
    assert!(widget.data.is_none());
    widget.apply(&one_monitor());
    assert!(widget.data.is_some());
    assert_eq!(widget.data.as_ref().unwrap().monitors.len(), 1);
}

#[test]
fn does_not_support_interact() {
    let widget = WorkspacesWidget::new("workspaces".to_string(), None);
    assert!(!widget.supports_interact());
}

#[test]
fn min_size_is_standard() {
    let widget = WorkspacesWidget::new("workspaces".to_string(), None);
    assert_eq!(widget.min_size(), (15, 1));
}

#[test]
fn transfer_state_copies_data() {
    let mut old = WorkspacesWidget::new("workspaces".to_string(), None);
    old.data = Some(HyprlandData {
        monitors: vec![],
        workspaces: vec![],
        active_workspace: Some(1),
        active_window: None,
        connected: true,
        detected: true,
    });
    let mut new_widget = WorkspacesWidget::new("workspaces".to_string(), None);
    assert!(new_widget.data.is_none());
    new_widget.transfer_from(&old);
    assert!(new_widget.data.is_some());
    assert_eq!(new_widget.data.as_ref().unwrap().active_workspace, Some(1));
}

#[test]
fn workspaces_layout_tiers() {
    let mut w = WorkspacesWidget::new("workspaces".to_string(), None);
    assert_eq!(w.layout_for(40, 10), WorkspacesLayout::Waiting);
    w.apply(&HyprlandData::disconnected(false));
    assert_eq!(w.layout_for(40, 10), WorkspacesLayout::NotDetected);
    w.apply(&HyprlandData::disconnected(true));
    assert_eq!(w.layout_for(40, 10), WorkspacesLayout::Reconnecting);
    w.apply(&one_monitor());
    assert_eq!(w.layout_for(19, 10), WorkspacesLayout::Minimal);
    assert_eq!(w.layout_for(25, 10), WorkspacesLayout::Medium);
    assert_eq!(w.layout_for(30, 5), WorkspacesLayout::Full);
}

// ─── processes ──────────────────────────────────────────────────────────────

fn procs_widget() -> ProcessWidget {
    ProcessWidget::new("processes".into(), None).unwrap()
}

/// A widget in interact mode showing the sample list of three processes
/// (firefox pid 100, code pid 200, systemd pid 1 in cpu order).
fn interacting_widget() -> ProcessWidget {
    let mut w = procs_widget();
    w.notify_interact(true);
    w.last_area_height = 20;
    w.process_count = 3;
    w
}

#[test]
fn processes_default_config_values() {
    let w = ProcessWidget::new("procs".into(), None).unwrap();
    assert_eq!(w.sort_by, SortColumn::Cpu);
    assert_eq!(w.sort_order, SortOrder::Desc);
    assert_eq!(w.config.count, 50);
}

#[test]
fn invalid_sort_by_errors() {
    let config = ProcessConfig { sort_by: "invalid".to_string(), ..Default::default() };
    assert!(ProcessWidget::new("procs".into(), Some(config)).is_err());
}

#[test]
fn processes_config_values_from_settings() {
    let config = ProcessConfig { sort_by: "memory".into(), sort_order: "asc".into(), count: 20 };
    let w = ProcessWidget::new("procs".into(), Some(config)).unwrap();
    assert_eq!(w.sort_by, SortColumn::Memory);
    assert_eq!(w.sort_order, SortOrder::Asc);
    assert_eq!(w.config.count, 20);
}

#[test]
fn processes_invalid_order_and_zero_count_error() {
    let e = ProcessWidget::new(
        "p".into(),
        Some(ProcessConfig { sort_order: "up".into(), ..Default::default() }),
    )
    .unwrap_err();
    assert_eq!(e.message(), "invalid sort_order: 'up'");
    let e = ProcessWidget::new("p".into(), Some(ProcessConfig { count: 0, ..Default::default() })).unwrap_err();
    assert_eq!(e, WidgetError::ZeroProcessCount);
    assert_eq!(e.message(), "count must be > 0");
}

#[test]
fn handle_data_clamps_selected_index() {
    let mut w = procs_widget();
    w.selected_index = 10;
    w.after_data(3);
    assert_eq!(w.selected_index, 2); // len - 1
}

#[test]
fn supports_interact_returns_true() {
    let w = ProcessWidget::new("procs".into(), None).unwrap();
    assert!(w.supports_interact());
}

#[test]
fn sort_column_next_cycles() {
    assert_eq!(SortColumn::Cpu.next(), SortColumn::Memory);
    assert_eq!(SortColumn::Memory.next(), SortColumn::Pid);
    assert_eq!(SortColumn::Pid.next(), SortColumn::Name);
    assert_eq!(SortColumn::Name.next(), SortColumn::Cpu);
}

#[test]
fn sort_order_toggle() {
    assert_eq!(SortOrder::Asc.toggle(), SortOrder::Desc);
    assert_eq!(SortOrder::Desc.toggle(), SortOrder::Asc);
}

#[test]
fn sort_column_four_steps_return() {
    for c in [SortColumn::Cpu, SortColumn::Memory, SortColumn::Pid, SortColumn::Name] {
        assert_eq!(c.next().next().next().next(), c);
    }
    for o in [SortOrder::Asc, SortOrder::Desc] {
        assert_eq!(o.toggle().toggle(), o);
    }
}

#[test]
fn truncate_name_short() {
    assert_eq!(truncate_name("hi", 10), "hi");
}

#[test]
fn truncate_name_exact() {
    assert_eq!(truncate_name("hello", 5), "hello");
}

#[test]
fn truncate_name_long() {
    let result = truncate_name("firefox-bin", 8);
    assert_eq!(result, "firefox\u{2026}");
    assert!(result.chars().count() <= 8);
}

#[test]
fn truncate_name_edge_widths() {
    assert_eq!(truncate_name("firefox", 0), "");
    assert_eq!(truncate_name("firefox", 1), "f");
    assert_eq!(truncate_name("firefox", 2), "f\u{2026}");
}

#[test]
fn status_str_variants() {
    assert_eq!(status_str(&ProcessStatus::Running), "R");
    assert_eq!(status_str(&ProcessStatus::Sleeping), "S");
    assert_eq!(status_str(&ProcessStatus::Stopped), "T");
    assert_eq!(status_str(&ProcessStatus::Zombie), "Z");
    assert_eq!(status_str(&ProcessStatus::Other("x".into())), "?");
}

#[test]
fn transfer_state_copies_sort_not_interacting() {
    let mut old = ProcessWidget::new("procs".into(), None).unwrap();
    old.sort_by = SortColumn::Name;
    old.sort_order = SortOrder::Asc;
    old.scroll_offset = 5;
    old.selected_index = 3;
    old.interacting = true;

    let mut new_w = ProcessWidget::new("procs".into(), None).unwrap();
    new_w.transfer_from(&old);
    assert_eq!(new_w.sort_by, SortColumn::Name);
    assert_eq!(new_w.sort_order, SortOrder::Asc);
    assert_eq!(new_w.scroll_offset, 5);
    assert_eq!(new_w.selected_index, 3);
    assert!(!new_w.interacting); // NOT transferred
}

#[test]
fn handle_event_enter_interact() {
    let mut w = procs_widget();
    w.last_area_height = 20;
    w.process_count = 3;
    let result = w.handle_key(KeyCode::Enter, None, 4242);
    assert_eq!(result.action, Some(Action::EnterInteract));
    // The widget does not set interacting itself; the app notifies it.
    assert!(!w.interacting);
    w.notify_interact(true);
    assert!(w.interacting);
}

#[test]
fn handle_event_enter_blocked_in_medium_tier() {
    let mut w = procs_widget();
    w.last_area_height = 5;
    w.process_count = 3;
    let result = w.handle_key(KeyCode::Enter, None, 4242);
    assert_eq!(result.action, None);
    assert!(!w.interacting);
}

#[test]
fn handle_event_escape_exits_interact() {
    let mut w = interacting_widget();
    let result = w.handle_key(KeyCode::Esc, None, 4242);
    assert_eq!(result.action, Some(Action::ExitInteract));
    // The widget does not clear interacting itself; the app notifies it.
    assert!(w.interacting);
    w.notify_interact(false);
    assert!(!w.interacting);
}

#[test]
fn handle_event_j_moves_selection_down() {
    let mut w = interacting_widget();
    w.selected_index = 0;
    w.handle_key(KeyCode::Char('j'), None, 4242);
    assert_eq!(w.selected_index, 1);
}

#[test]
fn handle_event_k_moves_selection_up() {
    let mut w = interacting_widget();
    w.selected_index = 2;
    w.handle_key(KeyCode::Char('k'), None, 4242);
    assert_eq!(w.selected_index, 1);
}

#[test]
fn handle_event_s_cycles_sort_column() {
    let mut w = interacting_widget();
    assert_eq!(w.sort_by, SortColumn::Cpu);
    let out = w.handle_key(KeyCode::Char('s'), None, 4242);
    assert_eq!(w.sort_by, SortColumn::Memory);
    assert!(out.resort);
}

#[test]
fn handle_event_shift_s_toggles_sort_order() {
    let mut w = interacting_widget();
    assert_eq!(w.sort_order, SortOrder::Desc);
    w.handle_key(KeyCode::Char('S'), None, 4242);
    assert_eq!(w.sort_order, SortOrder::Asc);
}

#[test]
fn handle_event_x_enters_signal_confirm() {
    let mut w = interacting_widget();
    w.selected_index = 1;
    w.handle_key(KeyCode::Char('x'), Some((100, "firefox".to_string())), 4242);
    assert!(w.signal_confirm.is_some());
    assert_eq!(w.signal_confirm.as_ref().unwrap().pid, 100);
}

#[test]
fn handle_event_x_blocks_self_pid() {
    let mut w = interacting_widget();
    w.process_count = 1;
    w.selected_index = 0;
    w.handle_key(KeyCode::Char('x'), Some((4242, "self".to_string())), 4242);
    let confirm = w.signal_confirm.as_ref().unwrap();
    assert!(confirm.result.as_ref().unwrap().is_err());
}

#[test]
fn handle_event_n_cancels_signal_confirm() {
    let mut w = interacting_widget();
    w.signal_confirm = Some(SignalConfirm { pid: 100, name: "firefox".into(), result: None });
    w.handle_key(KeyCode::Char('n'), None, 4242);
    assert!(w.signal_confirm.is_none());
}

#[test]
fn handle_event_escape_cancels_signal_confirm() {
    let mut w = interacting_widget();
    w.signal_confirm = Some(SignalConfirm { pid: 100, name: "firefox".into(), result: None });
    let result = w.handle_key(KeyCode::Esc, None, 4242);
    assert!(w.signal_confirm.is_none());
    assert!(w.interacting);
    assert_eq!(result.action, None);
}

#[test]
fn handle_event_y_asks_for_signal() {
    let mut w = interacting_widget();
    w.signal_confirm = Some(SignalConfirm { pid: 100, name: "firefox".into(), result: None });
    let result = w.handle_key(KeyCode::Char('y'), None, 4242);
    assert_eq!(result.send_signal, Some(100));
    w.record_signal_result(Ok(()));
    assert_eq!(w.signal_confirm.as_ref().unwrap().result, Some(Ok(())));
    // Any key dismisses an answered prompt.
    w.handle_key(KeyCode::Char('q'), None, 4242);
    assert!(w.signal_confirm.is_none());
}

#[test]
fn handle_event_exit_interact_on_resize_below_threshold() {
    let mut w = interacting_widget();
    w.last_area_height = 5;
    let result = w.handle_key(KeyCode::Char('j'), None, 4242);
    assert_eq!(result.action, Some(Action::ExitInteract));
    // The widget does not clear interacting itself; the app notifies it.
    assert!(w.interacting);
    w.notify_interact(false);
    assert!(!w.interacting);
}

#[test]
fn selection_scrolls_into_view() {
    let mut w = interacting_widget();
    w.last_area_height = 10; // 9 visible rows
    w.process_count = 30;
    for _ in 0..12 {
        w.handle_key(KeyCode::Down, None, 1);
    }
    assert_eq!(w.selected_index, 12);
    assert_eq!(w.scroll_offset, 4);
    w.after_data(5);
    assert_eq!(w.selected_index, 4);
    assert!(w.scroll_offset <= w.selected_index);
}

// ─── placeholder ────────────────────────────────────────────────────────────

#[test]
fn placeholder_label_shows_id_when_distinct() {
    let p = PlaceholderWidget::new("cpu".into(), "cpu".into());
    assert_eq!(p.label(), "cpu");
    let q = PlaceholderWidget::new("cpu2".into(), "cpu".into());
    assert_eq!(q.label(), "cpu (cpu2)");
    assert_eq!(q.name(), "cpu");
    assert_eq!(q.id(), "cpu2");
}

// ─── cpu, network, disk and temperature settings ────────────────────────────


#[test]
fn reading_widget_settings_are_checked() {
    assert!(check_cpu_settings("sparklines", 60).is_ok());
    assert_eq!(check_cpu_settings("pie", 60), Err(WidgetError::InvalidCpuMode { mode: "pie".into() }));
    assert_eq!(check_cpu_settings("bars", 0), Err(WidgetError::ZeroHistoryLength));
    assert_eq!(check_cpu_settings("bars", 0).unwrap_err().message(), "history_length must be > 0");
    assert!(check_network_settings("KB/s", 1).is_ok());
    assert_eq!(
        check_network_settings("GB/s", 1).unwrap_err().message(),
        "invalid network unit: 'GB/s'"
    );
    assert!(check_disk_settings("both", 5).is_ok());
    assert_eq!(check_disk_settings("all", 5), Err(WidgetError::InvalidDiskMode { mode: "all".into() }));
    assert!(check_temps_mode("compact").is_ok());
    assert_eq!(check_temps_mode("bars").unwrap_err().message(), "invalid temps mode: 'bars'");
}

#[test]
fn interfaces_mounts_and_sensors_are_selected() {
    assert!(interface_selected("auto", "eth0"));
    assert!(!interface_selected("auto", "lo"));
    assert!(!interface_selected("auto", "lo0"));
    assert!(interface_selected("auto", "l"));
    assert!(interface_selected("wlan0", "wlan0"));
    assert!(!interface_selected("wlan0", "eth0"));

    assert!(mount_selected(&vec!["auto".to_string()], "/boot"));
    assert!(mount_selected(&vec!["/".to_string(), "/home".to_string()], "/home"));
    assert!(!mount_selected(&vec!["/".to_string(), "auto".to_string()], "/boot"));

    let filters = vec!["CPU".to_string(), "nvme".to_string()];
    assert!(sensor_selected(&filters, "cpu package"));
    assert!(sensor_selected(&filters, "NVMe Composite"));
    assert!(!sensor_selected(&filters, "acpitz"));
    assert!(sensor_selected(&vec!["x".to_string(), "auto".to_string()], "anything"));
    assert!(sensor_selected(&vec![String::new()], "anything"));
}

#[test]
fn memory_min_size_depends_on_process_list() {
    let w = MemoryWidget::new("memory".into(), None);
    assert_eq!(w.min_size(), (20, 10));
    let w = MemoryWidget::new(
        "memory".into(),
        Some(MemoryConfig { show_swap: true, show_processes: false, process_count: 5 }),
    );
    assert_eq!(w.min_size(), (20, 4));
}

fn ws(id: i32, name: &str, monitor: &str) -> WorkspaceInfo {
    WorkspaceInfo { id, name: name.to_string(), monitor: monitor.to_string(), window_count: 0 }
}

#[test]
fn workspaces_listed_by_id_per_monitor() {
    let all = vec![ws(3, "c", "DP-1"), ws(1, "a", "HDMI"), ws(2, "b", "DP-1"), ws(1, "a2", "DP-1")];
    let sorted = workspaces_by_id(&all);
    let names: Vec<&str> = sorted.iter().map(|w| w.name.as_str()).collect();
    assert_eq!(names, vec!["a", "a2", "b", "c"]);
    let on_dp1 = workspaces_on(&sorted, "DP-1");
    let names: Vec<&str> = on_dp1.iter().map(|w| w.name.as_str()).collect();
    assert_eq!(names, vec!["a2", "b", "c"]);
    assert!(workspaces_on(&sorted, "eDP-1").is_empty());
}
