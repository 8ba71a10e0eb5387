use jless_theme::color::Color;
use jless_theme::config::{
    default_themes, themes_config_to_themes, Config, StyleConfig, Styles, ThemesConfig,
};
use jless_theme::style::Style;

fn empty_cfg() -> StyleConfig {
    StyleConfig { fg: None, bg: None, inverted: None, bold: None, dimmed: None }
}

fn full_cfg(s: Style) -> StyleConfig {
    StyleConfig {
        fg: Some(s.fg),
        bg: Some(s.bg),
        inverted: Some(s.inverted),
        bold: Some(s.bold),
        dimmed: Some(s.dimmed),
    }
}

#[test]
fn resolve_empty_source_has_no_entries() {
    let source = ThemesConfig { entries: Vec::new() };
    let resolved = themes_config_to_themes(source);
    assert_eq!(resolved.entries.len(), 0);
}

#[test]
fn resolve_empty_entry_is_all_neutral() {
    let source = ThemesConfig { entries: vec![("string".to_string(), Vec::new())] };
    let resolved = themes_config_to_themes(source);
    assert_eq!(resolved.entries.len(), 1);
    assert_eq!(resolved.entries[0].0, "string");
    assert_eq!(resolved.entries[0].1, Styles::default());
}

#[test]
fn resolve_single_partial_bold_record() {
    let record = StyleConfig { bold: Some(true), ..empty_cfg() };
    let source = ThemesConfig { entries: vec![("number".to_string(), vec![Some(record)])] };
    let resolved = themes_config_to_themes(source);
    let styles = resolved.entries[0].1;
    let expected_first = Style {
        fg: Color::Default,
        bg: Color::Default,
        inverted: false,
        bold: true,
        dimmed: false,
    };
    assert_eq!(styles.default, expected_first);
    assert_eq!(styles.default_matched, Style::default());
    assert_eq!(styles.focused, Style::default());
    assert_eq!(styles.focused_matched, Style::default());
}

#[test]
fn resolve_none_slot_is_neutral() {
    let record = StyleConfig { inverted: Some(true), ..empty_cfg() };
    let source = ThemesConfig { entries: vec![("bool".to_string(), vec![None, Some(record)])] };
    let resolved = themes_config_to_themes(source);
    let styles = resolved.entries[0].1;
    assert_eq!(styles.default, Style::default());
    assert!(styles.default_matched.inverted);
    assert_eq!(styles.focused, Style::default());
}

#[test]
fn resolve_ignores_slots_beyond_the_fourth() {
    let loud = StyleConfig { bold: Some(true), ..empty_cfg() };
    let source = ThemesConfig {
        entries: vec![(
            "null".to_string(),
            vec![None, None, None, None, Some(loud), Some(loud)],
        )],
    };
    let resolved = themes_config_to_themes(source);
    assert_eq!(resolved.entries[0].1, Styles::default());
}

#[test]
fn resolve_complete_entry_is_identity() {
    let a = Style {
        fg: Color::Hex(0x112233),
        bg: Color::Default,
        inverted: false,
        bold: true,
        dimmed: false,
    };
    let b = Style {
        fg: Color::C16(3),
        bg: Color::Hex(0xfff000),
        inverted: true,
        bold: false,
        dimmed: false,
    };
    let c = Style {
        fg: Color::Default,
        bg: Color::C16(15),
        inverted: false,
        bold: false,
        dimmed: true,
    };
    let d = Style {
        fg: Color::Hex(0xabcdef),
        bg: Color::Hex(0x001122),
        inverted: true,
        bold: true,
        dimmed: true,
    };
    let source = ThemesConfig {
        entries: vec![(
            "object_label".to_string(),
            vec![Some(full_cfg(a)), Some(full_cfg(b)), Some(full_cfg(c)), Some(full_cfg(d))],
        )],
    };
    let resolved = themes_config_to_themes(source);
    let styles = resolved.entries[0].1;
    assert_eq!(styles.default, a);
    assert_eq!(styles.default_matched, b);
    assert_eq!(styles.focused, c);
    assert_eq!(styles.focused_matched, d);
}

#[test]
fn config_document_wraps_the_themes_table() {
    let document = Config {
        themes: ThemesConfig { entries: vec![("null".to_string(), vec![None])] },
    };
    let resolved = themes_config_to_themes(document.themes);
    assert_eq!(resolved.entries.len(), 1);
    assert_eq!(resolved.entries[0].1, Styles::default());
}

#[test]
fn resolve_keeps_names_and_order() {
    let source = ThemesConfig {
        entries: vec![
            ("alpha".to_string(), Vec::new()),
            ("beta".to_string(), vec![None]),
        ],
    };
    let resolved = themes_config_to_themes(source);
    assert_eq!(resolved.entries[0].0, "alpha");
    assert_eq!(resolved.entries[1].0, "beta");
}

#[test]
fn default_themes_has_the_nine_curated_entries() {
    let themes = default_themes();
    let names: Vec<&str> = themes.entries.iter().map(|e| e.0.as_str()).collect();
    assert_eq!(
        names,
        vec![
            "object_label",
            "object_label_index",
            "array_label",
            "container_delimiter",
            "container_preview",
            "null",
            "bool",
            "number",
            "string",
        ]
    );
}

#[test]
fn default_themes_curated_values() {
    let themes = default_themes();
    let object_label = themes.entries[0].1;
    assert_eq!(object_label.default, Style::default());
    assert_eq!(
        object_label.focused,
        Style {
            fg: Color::Hex(0xff013f),
            bg: Color::Hex(0xffffff),
            inverted: true,
            bold: true,
            dimmed: false,
        }
    );
    let null_styles = themes.entries[5].1;
    assert_eq!(null_styles.default.fg, Color::Hex(0xdddddd));
    assert_eq!(
        null_styles.default_matched,
        Style {
            fg: Color::Default,
            bg: Color::Hex(0xfff000),
            inverted: true,
            bold: true,
            dimmed: false,
        }
    );
    assert_eq!(null_styles.focused, Style::default());
}
