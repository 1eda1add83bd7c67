use mise_tui::theme::{
    parse_color, parse_style, Color, Theme, ThemeConfig, ThemeError,
};

#[test]
fn parse_named_color_cyan() {
    assert_eq!(parse_color("cyan").unwrap(), Color::Cyan);
}

#[test]
fn parse_named_color_dark_gray() {
    assert_eq!(parse_color("dark_gray").unwrap(), Color::DarkGray);
}

#[test]
fn parse_bright_variant_light_red() {
    assert_eq!(parse_color("light_red").unwrap(), Color::LightRed);
}

#[test]
fn parse_256_palette() {
    assert_eq!(parse_color("color(123)").unwrap(), Color::Indexed(123));
}

#[test]
fn parse_hex_color() {
    assert_eq!(parse_color("#ff5500").unwrap(), Color::Rgb(255, 85, 0));
}

#[test]
fn parse_hex_color_lowercase() {
    assert_eq!(parse_color("#00aaff").unwrap(), Color::Rgb(0, 170, 255));
}

#[test]
fn parse_invalid_color_errors() {
    assert!(parse_color("not_a_color").is_err());
}

#[test]
fn parse_invalid_hex_errors() {
    assert!(parse_color("#xyz").is_err());
}

#[test]
fn parse_style_plain_color() {
    let style = parse_style("cyan").unwrap();
    assert_eq!(style.fg, Some(Color::Cyan));
}

#[test]
fn parse_style_bold_color() {
    let style = parse_style("bold cyan").unwrap();
    assert_eq!(style.fg, Some(Color::Cyan));
    assert!(style.bold);
}

#[test]
fn parse_style_multiple_modifiers() {
    let style = parse_style("bold italic white").unwrap();
    assert_eq!(style.fg, Some(Color::White));
    assert!(style.bold);
    assert!(style.italic);
}

#[test]
fn parse_style_dim() {
    let style = parse_style("dim gray").unwrap();
    assert_eq!(style.fg, Some(Color::Gray));
    assert!(style.dim);
}

#[test]
fn parse_style_invalid_errors() {
    assert!(parse_style("bold not_a_color").is_err());
}

#[test]
fn theme_from_empty_config_uses_defaults() {
    let config = ThemeConfig {
        border: None,
        border_focused: None,
        border_interact: None,
        title: None,
        label: None,
        value: None,
        gauge_fill: None,
        gauge_bg: None,
        sparkline: None,
        ok: None,
        warning: None,
        critical: None,
        header_bg: None,
        header_fg: None,
        error_fg: None,
    };
    let theme = Theme::from_config(&config).unwrap();
    assert_eq!(theme.border.fg, Some(Color::Gray));
    assert_eq!(theme.border_focused.fg, Some(Color::Cyan));
}

#[test]
fn theme_from_config_overrides() {
    let config = ThemeConfig {
        border: Some("red".to_string()),
        border_focused: Some("bold green".to_string()),
        ..ThemeConfig::default()
    };
    let theme = Theme::from_config(&config).unwrap();
    assert_eq!(theme.border.fg, Some(Color::Red));
    assert_eq!(theme.border_focused.fg, Some(Color::Green));
    assert!(theme.border_focused.bold);
}

#[test]
fn theme_from_config_invalid_color_errors() {
    let config = ThemeConfig { border: Some("not_a_color".to_string()), ..ThemeConfig::default() };
    assert!(Theme::from_config(&config).is_err());
}

#[test]
fn theme_default_has_error_fg() {
    let theme = Theme::default_theme();
    assert_eq!(theme.error_fg, Color::Red);
}

#[test]
fn theme_default_has_border_interact() {
    let theme = Theme::default_theme();
    assert_eq!(theme.border_interact.fg, Some(Color::Yellow));
}

#[test]
fn theme_from_config_border_interact_override() {
    let config = ThemeConfig { border_interact: Some("bold green".to_string()), ..ThemeConfig::default() };
    let theme = Theme::from_config(&config).unwrap();
    assert_eq!(theme.border_interact.fg, Some(Color::Green));
    assert!(theme.border_interact.bold);
}

// -- further cases --

#[test]
fn color_error_variants() {
    assert_eq!(parse_color("#abc"), Err(ThemeError::HexLength { hex: "abc".into() }));
    assert_eq!(parse_color("#gg0000"), Err(ThemeError::InvalidHex { hex: "gg0000".into() }));
    assert_eq!(parse_color("color(300)"), Err(ThemeError::InvalidPaletteIndex { inner: "300".into() }));
    assert_eq!(parse_color("teal"), Err(ThemeError::UnknownColor { name: "teal".into() }));
    assert_eq!(parse_style("red blue"), Err(ThemeError::TokenAfterColor { token: "blue".into() }));
}

#[test]
fn style_without_color_and_underline() {
    let style = parse_style("underline bold").unwrap();
    assert_eq!(style.fg, None);
    assert!(style.underlined && style.bold);
    let style = parse_style("  italic   #010203 ").unwrap();
    assert_eq!(style.fg, Some(Color::Rgb(1, 2, 3)));
    assert!(style.italic);
}

#[test]
fn header_colors_take_plain_colors() {
    let config = ThemeConfig {
        header_bg: Some("color(17)".into()),
        error_fg: Some("light_magenta".into()),
        ..ThemeConfig::default()
    };
    let theme = Theme::from_config(&config).unwrap();
    assert_eq!(theme.header_bg, Color::Indexed(17));
    assert_eq!(theme.error_fg, Color::LightMagenta);
}

#[test]
fn multibyte_hex_is_an_error() {
    assert!(matches!(parse_color("#aébcd"), Err(ThemeError::InvalidHex { .. })));
    assert!(matches!(parse_color("#€€"), Err(ThemeError::InvalidHex { .. })));
    assert!(matches!(parse_color("#ééé"), Err(ThemeError::InvalidHex { .. })));
}
