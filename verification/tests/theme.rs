use smartlog::theme::{Color, Theme};

#[test]
fn test_all_returns_four_presets() {
    assert_eq!(Theme::all().len(), 4);
}

#[test]
fn test_by_name_case_insensitive() {
    assert_eq!(Theme::by_name("DARK"), Theme::dark());
    assert_eq!(Theme::by_name("Dark"), Theme::dark());
    assert_eq!(Theme::by_name("solarized"), Theme::solarized());
}

#[test]
fn test_by_name_unknown_defaults_to_dark() {
    assert_eq!(Theme::by_name("nonexistent"), Theme::dark());
}

#[test]
fn test_next_cycles_through_all() {
    let mut theme = Theme::dark();
    theme = theme.next();
    assert_eq!(theme, Theme::light());
    theme = theme.next();
    assert_eq!(theme, Theme::solarized());
    theme = theme.next();
    assert_eq!(theme, Theme::dracula());
    theme = theme.next();
    assert_eq!(theme, Theme::dark());
}

#[test]
fn test_dark_theme_colors() {
    assert_eq!(Theme::dark().error, Color::Red);
    assert_eq!(Theme::dark().info, Color::Green);
    assert_eq!(Theme::dark().highlight_bg, Color::Cyan);
}

#[test]
fn test_theme_presets_have_unique_names() {
    let names: Vec<_> = Theme::all().iter().map(|t| t.name).collect();
    for (i, name) in names.iter().enumerate() {
        assert!(!names[i + 1..].contains(name), "Duplicate name: {name}");
    }
}

#[test]
fn presets_in_order_with_their_names() {
    let names: Vec<&str> = Theme::all().iter().map(|t| t.name).collect();
    assert_eq!(names, vec!["dark", "light", "solarized", "dracula"]);
    for i in 0..4 {
        assert_eq!(Theme::preset(i), Theme::all()[i]);
    }
}

#[test]
fn by_name_finds_each_preset_in_any_case() {
    assert_eq!(Theme::by_name("LiGhT"), Theme::light());
    assert_eq!(Theme::by_name("DRACULA"), Theme::dracula());
    assert_eq!(Theme::by_name(""), Theme::dark());
    assert_eq!(Theme::by_name("dark "), Theme::dark());
}

#[test]
fn preset_colors_match_their_palettes() {
    let light = Theme::light();
    assert_eq!(light.unknown, Color::DarkGray);
    assert_eq!(light.highlight_fg, Color::White);
    assert_eq!(light.timestamp_color, Color::Gray);
    let solarized = Theme::solarized();
    assert_eq!(solarized.info, Color::Cyan);
    assert_eq!(solarized.highlight_bg, Color::Magenta);
    assert_eq!(solarized.source_color, Color::Green);
    let dracula = Theme::dracula();
    assert_eq!(dracula.error, Color::LightRed);
    assert_eq!(dracula.debug, Color::LightCyan);
    assert_eq!(dracula.input_active, Color::LightMagenta);
}

#[test]
fn next_of_unnamed_theme_starts_after_dark() {
    let mut custom = Theme::dark();
    custom.name = "custom";
    assert_eq!(custom.next(), Theme::light());
}
