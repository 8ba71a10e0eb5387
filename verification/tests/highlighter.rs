use jless_theme::color::Color;
use jless_theme::config::{themes_config_to_themes, Styles, StyleConfig, ThemesConfig};
use jless_theme::highlighter::{FallbackPolicy, Highlighter};
use jless_theme::style::Style;

#[test]
fn no_theme_policy_returns_neutral_for_any_name() {
    let h = Highlighter::with_policy(None, FallbackPolicy::NoTheme);
    assert_eq!(h.style("anything"), Styles::default());
    assert_eq!(h.style("string"), Styles::default());
    assert_eq!(h.style(""), Styles::default());
}

#[test]
fn builtin_policy_falls_back_to_default_theme() {
    let h = Highlighter::with_policy(None, FallbackPolicy::BuiltIn);
    let null_styles = h.style("null");
    assert_eq!(null_styles.default.fg, Color::Hex(0xdddddd));
}

#[test]
fn new_without_theme_uses_builtin() {
    let h = Highlighter::new(None);
    let number_styles = h.style("number");
    assert_eq!(number_styles.default.fg, Color::Hex(0xdc35ea));
    assert_eq!(
        h.style("object_label").focused,
        Style {
            fg: Color::Hex(0xff013f),
            bg: Color::Hex(0xffffff),
            inverted: true,
            bold: true,
            dimmed: false,
        }
    );
}

#[test]
fn new_with_theme_keeps_it() {
    let spec = StyleConfig {
        fg: Some(Color::C16(1)),
        bg: None,
        inverted: None,
        bold: None,
        dimmed: None,
    };
    let source = ThemesConfig { entries: vec![("string".to_string(), vec![Some(spec)])] };
    let h = Highlighter::new(Some(themes_config_to_themes(source)));
    assert_eq!(h.style("string").default.fg, Color::C16(1));
    // names the held theme lacks fall back to neutral
    assert_eq!(h.style("null"), Styles::default());
}

#[test]
fn base_style_is_the_unfocused_state() {
    let record = StyleConfig {
        fg: Some(Color::Hex(0x9700)),
        bg: None,
        inverted: None,
        bold: Some(true),
        dimmed: None,
    };
    let source = ThemesConfig { entries: vec![("string".to_string(), vec![Some(record)])] };
    let h = Highlighter::new(Some(themes_config_to_themes(source)));
    let single = h.base_style("string");
    assert_eq!(single.fg, Color::Hex(0x9700));
    assert!(single.bold);
    assert_eq!(h.base_style("absent"), Style::default());
    let unthemed = Highlighter::with_policy(None, FallbackPolicy::NoTheme);
    assert_eq!(unthemed.base_style("string"), Style::default());
}

#[test]
fn missing_key_returns_neutral_not_error() {
    let h = Highlighter::new(None);
    assert_eq!(h.style("comment"), Styles::default());
}

#[test]
fn dimmed_differs_from_default_style_only_in_dimmed() {
    let h = Highlighter::with_policy(None, FallbackPolicy::NoTheme);
    let dimmed = h.dimmed();
    let base = h.default_style();
    assert_eq!(dimmed.fg, base.fg);
    assert_eq!(dimmed.bg, base.bg);
    assert_eq!(dimmed.inverted, base.inverted);
    assert_eq!(dimmed.bold, base.bold);
    assert!(dimmed.dimmed);
    assert!(!base.dimmed);
}

#[test]
fn default_style_is_neutral() {
    let h = Highlighter::new(None);
    assert_eq!(h.default_style(), Style::default());
    assert_eq!(
        h.default_style(),
        Style {
            fg: Color::Default,
            bg: Color::Default,
            inverted: false,
            bold: false,
            dimmed: false,
        }
    );
}
