//! The themes of the window.

use skerry::syntax::SyntaxEngine;
use skerry::theme::GuiTheme;

fn luminance(color: u32) -> f32 {
    let channel = |value: u8| {
        let value = f32::from(value) / 255.0;
        if value <= 0.04045 {
            value / 12.92
        } else {
            ((value + 0.055) / 1.055).powf(2.4)
        }
    };
    let r = (color >> 16) as u8;
    let g = (color >> 8) as u8;
    let b = color as u8;
    0.2126 * channel(r) + 0.7152 * channel(g) + 0.0722 * channel(b)
}

fn contrast_ratio(a: u32, b: u32) -> f32 {
    let a = luminance(a);
    let b = luminance(b);
    let (lighter, darker) = if a >= b { (a, b) } else { (b, a) };
    (lighter + 0.05) / (darker + 0.05)
}

#[test]
fn bundled_theme_names_are_unique_and_resolvable() {
    let themes = GuiTheme::all();
    let mut names: Vec<&str> = themes.iter().map(|theme| theme.name).collect();
    let count = names.len();
    names.sort_unstable();
    names.dedup();

    assert_eq!(names.len(), count);
    for name in names {
        assert_eq!(GuiTheme::by_name(name).map(|theme| theme.name), Some(name));
    }
}

#[test]
fn curated_interface_themes_have_matching_syntax_palettes() {
    let engine = SyntaxEngine::default_dark();
    for name in ["One Dark", "Fjord Night", "Aubergine", "Sandstone", "High Contrast"] {
        assert!(GuiTheme::by_name(name).is_some(), "missing UI theme: {name}");
        assert!(
            engine.theme_names().iter().any(|n| n == name),
            "missing syntax theme: {name}"
        );
    }
}

#[test]
fn theme_controls_keep_readable_text() {
    for theme in GuiTheme::all() {
        assert!(
            contrast_ratio(theme.text, theme.editor_bg) >= 4.5,
            "{} CSV row-number contrast",
            theme.name
        );
        assert!(
            contrast_ratio(theme.text, theme.line_highlight) >= 4.5,
            "{} striped CSV row-number contrast",
            theme.name
        );
        assert!(
            contrast_ratio(theme.button_text, theme.button_bg) >= 4.5,
            "{} inactive control and table-header contrast",
            theme.name
        );
        assert!(
            contrast_ratio(theme.accent_text, theme.accent) >= 4.5,
            "{} active control contrast",
            theme.name
        );
        assert!(
            contrast_ratio(theme.accent_text, theme.accent_hover) >= 4.5,
            "{} hover control contrast",
            theme.name
        );
    }
}

#[test]
fn names_are_found_whatever_their_case() {
    assert_eq!(GuiTheme::by_name("dark").map(|t| t.name), GuiTheme::by_name("Dark").map(|t| t.name));
    assert_eq!(GuiTheme::by_name("Neon"), None);
    assert_eq!(GuiTheme::default_dark().name, "Dark");
}
