use indexmap::IndexMap;

use mise_tui::config::{PanelConfig, ProfileConfig};
use mise_tui::profile::{ProfileError, ProfileManager};

fn make_profile(columns: usize, rows: usize) -> ProfileConfig {
    ProfileConfig {
        columns,
        rows,
        column_widths: None,
        row_heights: None,
        header: true,
        footer: true,
        panels: vec![PanelConfig {
            row: 0,
            col: 0,
            widget_type: "cpu".to_string(),
            id: None,
            col_span: 1,
            row_span: 1,
        }],
    }
}

fn make_profiles() -> IndexMap<String, ProfileConfig> {
    let mut map = IndexMap::new();
    map.insert("compact".to_string(), make_profile(2, 1));
    map.insert("full".to_string(), make_profile(3, 2));
    map.insert("minimal".to_string(), make_profile(1, 1));
    map
}

#[test]
fn test_new_with_valid_default() {
    let mgr = ProfileManager::new(make_profiles(), "compact").unwrap();
    assert_eq!(mgr.active_name(), "compact");
    assert_eq!(mgr.active_layout().columns, 2);
}

#[test]
fn test_new_with_invalid_default() {
    assert!(ProfileManager::new(make_profiles(), "nonexistent").is_err());
}

#[test]
fn test_list_returns_all_profiles() {
    let mgr = ProfileManager::new(make_profiles(), "compact").unwrap();
    let list = mgr.list();
    assert_eq!(list.len(), 3);
    assert_eq!(list, vec!["compact", "full", "minimal"]);
}

#[test]
fn test_switch_to_valid_profile() {
    let mut mgr = ProfileManager::new(make_profiles(), "compact").unwrap();
    let layout = mgr.switch("full").unwrap();
    assert_eq!(layout.columns, 3);
    assert_eq!(mgr.active_name(), "full");
}

#[test]
fn test_switch_to_invalid_profile() {
    let mut mgr = ProfileManager::new(make_profiles(), "compact").unwrap();
    assert!(mgr.switch("nonexistent").is_err());
    // Active should remain unchanged
    assert_eq!(mgr.active_name(), "compact");
}

#[test]
fn test_next_cycles_forward() {
    let mut mgr = ProfileManager::new(make_profiles(), "compact").unwrap();
    assert_eq!(mgr.next().columns, 3); // full
    assert_eq!(mgr.active_name(), "full");
    assert_eq!(mgr.next().columns, 1); // minimal
    assert_eq!(mgr.active_name(), "minimal");
    assert_eq!(mgr.next().columns, 2); // wraps to compact
    assert_eq!(mgr.active_name(), "compact");
}

#[test]
fn test_prev_cycles_backward() {
    let mut mgr = ProfileManager::new(make_profiles(), "compact").unwrap();
    assert_eq!(mgr.prev().columns, 1); // wraps to minimal
    assert_eq!(mgr.active_name(), "minimal");
    assert_eq!(mgr.prev().columns, 3); // full
    assert_eq!(mgr.active_name(), "full");
    assert_eq!(mgr.prev().columns, 2); // back to compact
    assert_eq!(mgr.active_name(), "compact");
}

#[test]
fn test_update_profile() {
    let mut mgr = ProfileManager::new(make_profiles(), "compact").unwrap();
    mgr.update_profile("compact", make_profile(4, 3));
    assert_eq!(mgr.active_layout().columns, 4);
    assert_eq!(mgr.active_layout().rows, 3);
}

#[test]
fn test_single_profile_next_stays() {
    let mut map = IndexMap::new();
    map.insert("only".to_string(), make_profile(2, 2));
    let mut mgr = ProfileManager::new(map, "only").unwrap();
    mgr.next();
    assert_eq!(mgr.active_name(), "only");
    assert_eq!(mgr.active_layout().columns, 2);
    mgr.prev();
    assert_eq!(mgr.active_name(), "only");
    assert_eq!(mgr.active_layout().columns, 2);
}

#[test]
fn test_profile_count() {
    let mgr = ProfileManager::new(make_profiles(), "compact").unwrap();
    assert_eq!(mgr.profile_count(), 3);
}

#[test]
fn test_profiles_map() {
    let mgr = ProfileManager::new(make_profiles(), "compact").unwrap();
    let map = mgr.profiles_map();
    assert!(map.contains_key("compact"));
    assert!(map.contains_key("full"));
    assert!(map.contains_key("minimal"));
}

// -- further cases --

#[test]
fn next_then_prev_returns_to_start() {
    let mut mgr = ProfileManager::new(make_profiles(), "full").unwrap();
    mgr.next();
    mgr.prev();
    assert_eq!(mgr.active_name(), "full");
    mgr.prev();
    mgr.next();
    assert_eq!(mgr.active_name(), "full");
}

#[test]
fn next_cycles_after_count_steps() {
    let mut mgr = ProfileManager::new(make_profiles(), "minimal").unwrap();
    for _ in 0..mgr.profile_count() {
        mgr.next();
    }
    assert_eq!(mgr.active_name(), "minimal");
}

#[test]
fn errors_name_the_profile() {
    match ProfileManager::new(make_profiles(), "gone") {
        Err(e) => assert_eq!(e, ProfileError::DefaultNotFound { name: "gone".into() }),
        Ok(_) => panic!("expected an error"),
    }
    let mut mgr = ProfileManager::new(make_profiles(), "compact").unwrap();
    match mgr.switch("nope") {
        Err(e) => assert_eq!(e, ProfileError::NotFound { name: "nope".into() }),
        Ok(_) => panic!("expected an error"),
    }
}

#[test]
fn update_of_missing_profile_appends_it() {
    let mut mgr = ProfileManager::new(make_profiles(), "compact").unwrap();
    mgr.update_profile("extra", make_profile(5, 5));
    assert_eq!(mgr.list(), vec!["compact", "full", "minimal", "extra"]);
    assert_eq!(mgr.active_name(), "compact");
}
