use indexmap::IndexMap;

use mise_tui::config::{
    is_valid_instance_id, is_valid_profile_name, parse_percentage_sum, Config, ConfigError,
    ConfigWarning, GeneralConfig, KeybindsConfig, NormalizeError, PanelConfig, ProfileConfig,
};
use mise_tui::registry::{is_known_type, known_types};
use mise_tui::theme::ThemeConfig;

fn panel(row: usize, col: usize, ty: &str) -> PanelConfig {
    PanelConfig { row, col, widget_type: ty.into(), id: None, col_span: 1, row_span: 1 }
}

fn panel_with_id(row: usize, col: usize, ty: &str, id: &str) -> PanelConfig {
    PanelConfig { id: Some(id.into()), ..panel(row, col, ty) }
}

fn spanning(row: usize, col: usize, ty: &str, row_span: usize, col_span: usize) -> PanelConfig {
    PanelConfig { row_span, col_span, ..panel(row, col, ty) }
}

fn grid(columns: usize, rows: usize, panels: Vec<PanelConfig>) -> ProfileConfig {
    ProfileConfig { columns, rows, column_widths: None, row_heights: None, header: true, footer: true, panels }
}

fn general(default_profile: Option<&str>) -> GeneralConfig {
    GeneralConfig { tick_rate: 250, default_profile: default_profile.map(|s| s.to_string()) }
}

/// A configuration with a legacy `[layout]` section.
fn legacy(layout: ProfileConfig, widgets: Vec<&str>) -> Config {
    Config {
        general: general(None),
        keybinds: KeybindsConfig::default(),
        layout: Some(layout),
        profiles: None,
        theme: ThemeConfig::default(),
        widgets: widgets.into_iter().map(|s| s.to_string()).collect(),
    }
}

/// A configuration with `[profiles.*]` sections.
fn with_profiles(default_profile: Option<&str>, profiles: Vec<(&str, ProfileConfig)>) -> Config {
    let mut map = IndexMap::new();
    for (name, p) in profiles {
        map.insert(name.to_string(), p);
    }
    Config {
        general: general(default_profile),
        keybinds: KeybindsConfig::default(),
        layout: None,
        profiles: Some(map),
        theme: ThemeConfig::default(),
        widgets: vec![],
    }
}

fn errors_of(config: &Config) -> Vec<ConfigError> {
    config.validate(&known_types()).errors
}

#[test]
fn test_profile_name_validation() {
    assert!(is_valid_profile_name("default"));
    assert!(is_valid_profile_name("compact_layout"));
    assert!(is_valid_profile_name("profile1"));
    assert!(!is_valid_profile_name(""));
    assert!(!is_valid_profile_name("has spaces"));
    assert!(!is_valid_profile_name("has-hyphen"));
    assert!(!is_valid_profile_name("has.dot"));
}

#[test]
fn validate_zero_rows_errors() {
    let config = legacy(grid(2, 0, vec![]), vec![]);
    assert!(errors_of(&config).iter().any(|e| matches!(e, ConfigError::InvalidGridDimensions { .. })));
}

#[test]
fn validate_panel_out_of_bounds_errors() {
    let config = legacy(grid(2, 2, vec![panel(5, 0, "cpu")]), vec![]);
    assert!(errors_of(&config).iter().any(|e| matches!(e, ConfigError::SpanOutOfBounds { .. })));
}

#[test]
fn validate_duplicate_position_errors() {
    let config = legacy(grid(2, 2, vec![panel(0, 0, "cpu"), panel(0, 0, "memory")]), vec![]);
    assert!(errors_of(&config).iter().any(|e| matches!(e, ConfigError::SpanOverlap { .. })));
}

#[test]
fn validate_unknown_widget_type_errors() {
    let config = legacy(grid(1, 1, vec![panel(0, 0, "doesnt_exist")]), vec![]);
    assert!(errors_of(&config).iter().any(|e| matches!(e, ConfigError::UnknownWidgetType { .. })));
}

#[test]
fn validate_duplicate_implicit_ids_errors() {
    let config = legacy(grid(2, 1, vec![panel(0, 0, "cpu"), panel(0, 1, "cpu")]), vec![]);
    assert!(errors_of(&config).iter().any(|e| matches!(e, ConfigError::DuplicateInstanceId { .. })));
}

#[test]
fn validate_duplicate_explicit_ids_errors() {
    let config = legacy(
        grid(2, 1, vec![panel_with_id(0, 0, "cpu", "my-widget"), panel_with_id(0, 1, "memory", "my-widget")]),
        vec![],
    );
    assert!(errors_of(&config).iter().any(|e| matches!(e, ConfigError::DuplicateInstanceId { .. })));
}

#[test]
fn validate_orphan_widget_section_errors() {
    let config = legacy(grid(1, 1, vec![panel(0, 0, "cpu")]), vec!["typo_widget"]);
    assert!(errors_of(&config).iter().any(|e| matches!(e, ConfigError::OrphanWidgetSection { .. })));
}

#[test]
fn validate_column_widths_mismatch_errors() {
    let mut layout = grid(2, 1, vec![]);
    layout.column_widths = Some(vec!["50%".into()]);
    let config = legacy(layout, vec![]);
    assert!(errors_of(&config).iter().any(|e| matches!(e, ConfigError::ColumnWidthsMismatch { .. })));
}

#[test]
fn validate_percentages_not_100_errors() {
    let mut layout = grid(2, 1, vec![]);
    layout.column_widths = Some(vec!["30%".into(), "30%".into()]);
    let config = legacy(layout, vec![]);
    assert!(errors_of(&config).iter().any(|e| matches!(e, ConfigError::PercentageSumError { .. })));
}

#[test]
fn validate_invalid_instance_id_errors() {
    let config = legacy(grid(1, 1, vec![panel_with_id(0, 0, "cpu", "has spaces")]), vec![]);
    assert!(errors_of(&config).iter().any(|e| matches!(e, ConfigError::InvalidInstanceId { .. })));
}

#[test]
fn validate_empty_panels_is_warning_not_error() {
    let config = legacy(grid(1, 1, vec![]), vec![]);
    let result = config.validate(&known_types());
    assert!(!result.has_errors());
    assert!(result.warnings.iter().any(|w| matches!(w, ConfigWarning::EmptyPanels)));
}

#[test]
fn validate_span_zero_errors() {
    let config = legacy(grid(2, 2, vec![spanning(0, 0, "cpu", 1, 0)]), vec![]);
    assert!(errors_of(&config).iter().any(|e| matches!(e, ConfigError::InvalidSpan { .. })));
}

#[test]
fn validate_span_out_of_bounds_errors() {
    let config = legacy(grid(2, 2, vec![spanning(0, 0, "cpu", 1, 3)]), vec![]);
    assert!(errors_of(&config).iter().any(|e| matches!(e, ConfigError::SpanOutOfBounds { .. })));
}

#[test]
fn validate_span_overlap_errors() {
    let config = legacy(grid(3, 1, vec![spanning(0, 0, "cpu", 1, 2), panel(0, 1, "memory")]), vec![]);
    assert!(errors_of(&config).iter().any(|e| matches!(e, ConfigError::SpanOverlap { .. })));
}

#[test]
fn validate_span_valid_no_errors() {
    let config = legacy(
        grid(3, 2, vec![spanning(0, 0, "cpu", 1, 2), panel(0, 2, "memory"), spanning(1, 0, "network", 1, 3)]),
        vec![],
    );
    let result = config.validate(&known_types());
    assert!(!result.has_errors(), "errors: {:?}", result.errors);
}

#[test]
fn test_parse_profiles_config() {
    let compact = grid(2, 1, vec![panel(0, 0, "cpu"), panel(0, 1, "memory")]);
    let full = grid(
        3,
        2,
        vec![
            panel(0, 0, "cpu"),
            panel(0, 1, "memory"),
            panel(0, 2, "network"),
            panel(1, 0, "temps"),
            panel(1, 1, "disk"),
            panel(1, 2, "processes"),
        ],
    );
    let config = with_profiles(Some("compact"), vec![("compact", compact), ("full", full)]);
    let normalized = config.normalize().unwrap();
    assert_eq!(normalized.default_profile(), "compact");
    assert_eq!(normalized.profiles().len(), 2);
    assert_eq!(normalized.active_profile_config().columns, 2);
    assert_eq!(normalized.active_profile_config().panels.len(), 2);
    let full = &normalized.profiles()["full"];
    assert_eq!(full.columns, 3);
    assert_eq!(full.panels.len(), 6);
}

#[test]
fn test_parse_legacy_layout_as_default_profile() {
    let config = legacy(grid(2, 1, vec![panel(0, 0, "cpu"), panel(0, 1, "memory")]), vec![]);
    let normalized = config.normalize().unwrap();
    assert_eq!(normalized.default_profile(), "default");
    assert_eq!(normalized.profiles().len(), 1);
    assert!(normalized.profiles().contains_key("default"));
    assert_eq!(normalized.active_profile_config().columns, 2);
    assert_eq!(normalized.active_profile_config().panels.len(), 2);
}

#[test]
fn test_parse_both_layout_and_profiles_is_error() {
    let mut config = with_profiles(None, vec![("other", grid(1, 1, vec![]))]);
    config.layout = Some(grid(1, 1, vec![]));
    assert!(config.normalize().is_err());
}

#[test]
fn test_parse_neither_layout_nor_profiles_is_error() {
    let mut config = legacy(grid(1, 1, vec![]), vec![]);
    config.layout = None;
    assert!(config.normalize().is_err());
}

#[test]
fn test_default_profile_defaults_to_first() {
    let config = with_profiles(
        None,
        vec![
            ("alpha", grid(1, 1, vec![panel(0, 0, "cpu")])),
            ("beta", grid(2, 1, vec![panel(0, 0, "cpu"), panel(0, 1, "memory")])),
        ],
    );
    let normalized = config.normalize().unwrap();
    assert_eq!(normalized.default_profile(), "alpha");
}

#[test]
fn test_invalid_default_profile_is_error() {
    let config = with_profiles(Some("nonexistent"), vec![("alpha", grid(1, 1, vec![]))]);
    assert!(config.normalize().is_err());
}

#[test]
fn test_keybinds_config_defaults() {
    let normalized = legacy(grid(1, 1, vec![]), vec![]).normalize().unwrap();
    assert!(normalized.keybinds.quit.is_none());
    assert!(normalized.keybinds.reload.is_none());
}

#[test]
fn test_keybinds_config_custom() {
    let mut config = legacy(grid(1, 1, vec![]), vec![]);
    config.keybinds.quit = Some("q".into());
    config.keybinds.reload = Some("r".into());
    let normalized = config.normalize().unwrap();
    assert_eq!(normalized.keybinds.quit.as_deref(), Some("q"));
    assert_eq!(normalized.keybinds.reload.as_deref(), Some("r"));
}

// -- further cases --

#[test]
fn normalize_errors_are_specific() {
    let mut both = with_profiles(None, vec![("other", grid(1, 1, vec![]))]);
    both.layout = Some(grid(1, 1, vec![]));
    assert_eq!(both.normalize().err(), Some(NormalizeError::BothLayoutAndProfiles));
    let empty = with_profiles(None, vec![]);
    assert_eq!(empty.normalize().err(), Some(NormalizeError::MissingLayout));
    let bad = with_profiles(Some("zeta"), vec![("alpha", grid(1, 1, vec![]))]);
    assert_eq!(bad.normalize().err(), Some(NormalizeError::DefaultProfileNotFound { name: "zeta".into() }));
}

#[test]
fn exact_errors_for_a_bad_layout() {
    let config = legacy(grid(2, 2, vec![panel(0, 0, "cpu"), panel(0, 0, "cpu")]), vec!["cpu", "ghost"]);
    let errors = errors_of(&config);
    assert!(errors.contains(&ConfigError::SpanOverlap {
        id1: "cpu".into(),
        id2: "cpu".into(),
        overlap_row: 0,
        overlap_col: 0
    }));
    assert!(errors.contains(&ConfigError::DuplicateInstanceId { id: "cpu".into() }));
    assert!(errors.contains(&ConfigError::OrphanWidgetSection { id: "ghost".into() }));
}

#[test]
fn invalid_profile_name_is_reported() {
    let config = with_profiles(None, vec![("has space", grid(1, 1, vec![panel(0, 0, "cpu")]))]);
    let errors = errors_of(&config);
    assert!(errors.contains(&ConfigError::InvalidProfileName { name: "has space".into() }));
}

#[test]
fn widget_sections_are_checked_per_profile() {
    let mut config = with_profiles(
        Some("a"),
        vec![("a", grid(1, 1, vec![panel(0, 0, "cpu")])), ("b", grid(1, 1, vec![panel(0, 0, "memory")]))],
    );
    config.widgets = vec!["memory".into()];
    let errors = errors_of(&config);
    assert_eq!(errors, vec![ConfigError::OrphanWidgetSection { id: "memory".into() }]);
}

#[test]
fn percentage_sums() {
    assert_eq!(parse_percentage_sum(&vec!["40%".into(), "60%".into()]), Ok(100));
    assert!(parse_percentage_sum(&vec!["40".into()]).is_err());
}

#[test]
fn instance_id_rules() {
    assert!(is_valid_instance_id("cpu-2_b"));
    assert!(!is_valid_instance_id("has space"));
    assert!(!is_valid_instance_id(""));
}

#[test]
fn registry_knows_the_widget_types() {
    assert_eq!(
        known_types(),
        vec!["cpu", "disk", "memory", "network", "packages", "processes", "services", "temps", "workspaces"]
    );
    assert!(is_known_type("services"));
    assert!(!is_known_type("clock"));
}

#[test]
fn saveable_config_uses_profiles_form() {
    let normalized = legacy(grid(2, 1, vec![panel(0, 0, "cpu")]), vec![]).normalize().unwrap();
    let saved = normalized.to_saveable();
    assert!(saved.layout.is_none());
    let profiles = saved.profiles.unwrap();
    assert_eq!(profiles.len(), 1);
    assert_eq!(profiles["default"].columns, 2);
}

#[test]
fn validate_checks_only_the_active_profile() {
    let good = grid(1, 1, vec![panel(0, 0, "cpu")]);
    let bad = grid(1, 0, vec![]);
    let config = with_profiles(Some("a"), vec![("a", good), ("b", bad)]);
    let result = config.validate(&known_types());
    assert!(!result.has_errors(), "errors: {:?}", result.errors);
    let all = config.normalize().unwrap().validate(&known_types());
    assert!(all.errors.iter().any(|e| matches!(e, ConfigError::InvalidGridDimensions { .. })));
}

#[test]
fn validate_reports_active_profile_errors() {
    let good = grid(1, 1, vec![panel(0, 0, "cpu")]);
    let bad = grid(1, 0, vec![]);
    let config = with_profiles(Some("b"), vec![("a", good), ("b", bad)]);
    assert!(errors_of(&config).iter().any(|e| matches!(e, ConfigError::InvalidGridDimensions { .. })));
}

#[test]
fn validate_checked_refuses_overflowing_spans() {
    let huge = grid(2, 2, vec![spanning(0, 1, "cpu", 1, usize::MAX)]);
    let config = legacy(huge, vec![]);
    assert!(config.validate_checked(&known_types()).is_none());
    let fine = legacy(grid(1, 1, vec![panel(0, 0, "cpu")]), vec![]);
    let checked = fine.validate_checked(&known_types()).unwrap();
    assert!(!checked.has_errors());
    let normalized = fine.normalize().unwrap();
    assert!(normalized.validate_checked(&known_types()).is_some());
}
