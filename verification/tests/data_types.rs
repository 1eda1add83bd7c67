use mise_tui::data::hyprland::{
    is_workspace_event, next_backoff, parse_active_window, parse_monitors, parse_workspaces,
};
use mise_tui::data::types::{
    kind_matches_widget_type, ActiveState, DataKind, HyprlandData, InterfaceData, MemoryData,
    MonitorInfo, NetworkData, PackageUpdate, PackagesData, PackagesResult, ProcessInfo,
    ProcessStatus, ServiceStatus, ServicesData, ServicesResult, WorkspaceInfo,
};

#[test]
fn memory_data_stores_all_fields() {
    let data = MemoryData {
        total_mem: 16_000_000_000,
        used_mem: 8_000_000_000,
        total_swap: 4_000_000_000,
        used_swap: 1_000_000_000,
        top_processes: vec![ProcessInfo {
            name: "firefox".to_string(),
            pid: 1234,
            memory_bytes: 500_000_000,
        }],
    };
    assert_eq!(data.top_processes.len(), 1);
    assert_eq!(data.top_processes[0].name, "firefox");
}

#[test]
fn network_data_stores_interfaces() {
    let data = NetworkData {
        interfaces: vec![InterfaceData {
            name: "eth0".to_string(),
            bytes_sent: 1024,
            bytes_received: 2048,
        }],
    };
    assert_eq!(data.interfaces[0].name, "eth0");
}

#[test]
fn process_status_variants() {
    let statuses = vec![
        ProcessStatus::Running,
        ProcessStatus::Sleeping,
        ProcessStatus::Stopped,
        ProcessStatus::Zombie,
        ProcessStatus::Other("unknown".to_string()),
    ];
    assert_eq!(statuses.len(), 5);
}

#[test]
fn matches_widget_type_disk() {
    assert!(kind_matches_widget_type(DataKind::Disk, "disk"));
    assert!(!kind_matches_widget_type(DataKind::Disk, "cpu"));
}

#[test]
fn matches_widget_type_processes() {
    assert!(kind_matches_widget_type(DataKind::Process, "processes"));
    assert!(!kind_matches_widget_type(DataKind::Process, "memory"));
}

#[test]
fn packages_result_stores_data() {
    let result = PackagesResult {
        instance_id: "packages".to_string(),
        data: Ok(PackagesData {
            updates: vec![PackageUpdate {
                name: "linux".to_string(),
                old_version: "6.8.1".to_string(),
                new_version: "6.8.2".to_string(),
            }],
        }),
    };
    assert_eq!(result.instance_id, "packages");
    assert!(result.data.is_ok());
    assert_eq!(result.data.unwrap().updates.len(), 1);
}

#[test]
fn packages_result_stores_error() {
    let result = PackagesResult {
        instance_id: "packages".to_string(),
        data: Err("checkupdates not found".to_string()),
    };
    assert!(result.data.is_err());
}

#[test]
fn services_result_stores_data() {
    let result = ServicesResult {
        instance_id: "services".to_string(),
        data: Ok(ServicesData {
            services: vec![ServiceStatus {
                name: "sshd".to_string(),
                active_state: ActiveState::Active,
                sub_state: "running".to_string(),
            }],
        }),
    };
    assert!(result.data.is_ok());
}

#[test]
fn active_state_variants() {
    let states = vec![
        ActiveState::Active,
        ActiveState::Inactive,
        ActiveState::Failed,
        ActiveState::Activating,
        ActiveState::Deactivating,
        ActiveState::Other("maintenance".to_string()),
    ];
    assert_eq!(states.len(), 6);
}

#[test]
fn matches_widget_type_packages() {
    assert!(kind_matches_widget_type(DataKind::Packages, "packages"));
    assert!(!kind_matches_widget_type(DataKind::Packages, "cpu"));
}

#[test]
fn matches_widget_type_services() {
    assert!(kind_matches_widget_type(DataKind::Services, "services"));
    assert!(!kind_matches_widget_type(DataKind::Services, "memory"));
}

#[test]
fn hyprland_data_stores_state() {
    let data = HyprlandData {
        monitors: vec![MonitorInfo { id: 0, name: "DP-1".to_string(), active_workspace_id: 1 }],
        workspaces: vec![WorkspaceInfo {
            id: 1,
            name: "1".to_string(),
            monitor: "DP-1".to_string(),
            window_count: 3,
        }],
        active_workspace: Some(1),
        active_window: Some("Firefox".to_string()),
        connected: true,
        detected: true,
    };
    assert_eq!(data.monitors.len(), 1);
    assert_eq!(data.workspaces[0].window_count, 3);
    assert!(data.connected);
}

#[test]
fn matches_widget_type_workspaces() {
    assert!(kind_matches_widget_type(DataKind::Hyprland, "workspaces"));
    assert!(!kind_matches_widget_type(DataKind::Hyprland, "cpu"));
}

#[test]
fn every_kind_matches_its_own_widget_only() {
    let pairs = [
        (DataKind::Cpu, "cpu"),
        (DataKind::Memory, "memory"),
        (DataKind::Network, "network"),
        (DataKind::Temps, "temps"),
        (DataKind::Disk, "disk"),
        (DataKind::Process, "processes"),
        (DataKind::Packages, "packages"),
        (DataKind::Services, "services"),
        (DataKind::Hyprland, "workspaces"),
    ];
    for (kind, ty) in pairs.iter() {
        for (_, other) in pairs.iter() {
            assert_eq!(kind_matches_widget_type(*kind, other), ty == other);
        }
    }
}

#[test]
fn workspace_event_detection() {
    assert!(is_workspace_event("workspace>>1"));
    assert!(is_workspace_event("createworkspace>>2"));
    assert!(is_workspace_event("destroyworkspace>>3"));
    assert!(is_workspace_event("moveworkspace>>4,DP-1"));
    assert!(is_workspace_event("activewindow>>firefox,Tab"));
    assert!(is_workspace_event("focusedmon>>DP-1,1"));
    assert!(!is_workspace_event("openwindow>>abc123"));
    assert!(!is_workspace_event("closewindow>>abc123"));
    assert!(!is_workspace_event(""));
}

#[test]
fn workspace_event_v2_names_and_no_separator() {
    assert!(is_workspace_event("workspacev2>>1,1") == false);
    assert!(is_workspace_event("createworkspacev2>>2,2"));
    assert!(is_workspace_event("activewindowv2>>abc"));
    assert!(is_workspace_event("focusedmon"));
}

#[test]
fn reconnect_backoff_doubles_up_to_thirty() {
    let mut b = 1u64;
    let mut seen = vec![b];
    for _ in 0..6 {
        b = next_backoff(b);
        seen.push(b);
    }
    assert_eq!(seen, vec![1, 2, 4, 8, 16, 30, 30]);
}

#[test]
fn connected_state_takes_first_monitor_workspace() {
    let data = HyprlandData::connected_state(
        vec![
            MonitorInfo { id: 0, name: "DP-1".to_string(), active_workspace_id: 4 },
            MonitorInfo { id: 1, name: "HDMI".to_string(), active_workspace_id: 7 },
        ],
        vec![],
        Some("term".to_string()),
    );
    assert_eq!(data.active_workspace, Some(4));
    assert!(data.connected && data.detected);
    let empty = HyprlandData::connected_state(vec![], vec![], None);
    assert_eq!(empty.active_workspace, None);
}

#[test]
fn disconnected_state_is_empty() {
    let data = HyprlandData::disconnected(true);
    assert!(!data.connected);
    assert!(data.detected);
    assert!(data.monitors.is_empty() && data.workspaces.is_empty());
    assert!(!HyprlandData::disconnected(false).detected);
}

#[test]
fn parse_monitors_valid() {
    let json = r#"[
        {
            "id": 0,
            "name": "DP-1",
            "activeWorkspace": {"id": 1, "name": "1"}
        },
        {
            "id": 1,
            "name": "HDMI-A-1",
            "activeWorkspace": {"id": 3, "name": "3"}
        }
    ]"#;
    let monitors = parse_monitors(json);
    assert_eq!(monitors.len(), 2);
    assert_eq!(monitors[0].name, "DP-1");
    assert_eq!(monitors[0].active_workspace_id, 1);
    assert_eq!(monitors[1].name, "HDMI-A-1");
    assert_eq!(monitors[1].active_workspace_id, 3);
}

#[test]
fn parse_monitors_empty() {
    assert!(parse_monitors("[]").is_empty());
}

#[test]
fn parse_monitors_invalid_json() {
    assert!(parse_monitors("not json").is_empty());
}

#[test]
fn parse_workspaces_valid() {
    let json = r#"[
        {
            "id": 1,
            "name": "1",
            "monitor": "DP-1",
            "windows": 3
        },
        {
            "id": 2,
            "name": "2",
            "monitor": "DP-1",
            "windows": 0
        }
    ]"#;
    let workspaces = parse_workspaces(json);
    assert_eq!(workspaces.len(), 2);
    assert_eq!(workspaces[0].id, 1);
    assert_eq!(workspaces[0].window_count, 3);
    assert_eq!(workspaces[1].window_count, 0);
}

#[test]
fn parse_workspaces_empty() {
    assert!(parse_workspaces("[]").is_empty());
}

#[test]
fn parse_active_window_valid() {
    let json = r#"{"class": "firefox", "title": "GitHub - Mozilla Firefox"}"#;
    let title = parse_active_window(json);
    assert_eq!(title.as_deref(), Some("GitHub - Mozilla Firefox"));
}

#[test]
fn parse_active_window_no_window() {
    assert!(parse_active_window(r#"{}"#).is_none());
}

#[test]
fn parse_active_window_invalid_json() {
    assert!(parse_active_window("not json").is_none());
}

#[test]
fn parse_monitors_skips_incomplete_objects() {
    let json = r#"[{"id": 4, "name": "DP-2"}, {"id": 5, "name": "DP-3", "activeWorkspace": {"id": 9}}, {"name": "x"}]"#;
    let monitors = parse_monitors(json);
    assert_eq!(monitors.len(), 1);
    assert_eq!(monitors[0].id, 5);
    assert_eq!(monitors[0].active_workspace_id, 9);
}

#[test]
fn parse_workspaces_skips_wrong_types() {
    let json = r#"[{"id": 1, "name": "1", "monitor": "DP-1", "windows": -2}, {"id": -99, "name": "special", "monitor": "DP-1", "windows": 1}]"#;
    let workspaces = parse_workspaces(json);
    assert_eq!(workspaces.len(), 1);
    assert_eq!(workspaces[0].id, -99);
    assert_eq!(workspaces[0].name, "special");
}
