use vterm::theme::{theme_terminal_colors, Theme};

#[test]
fn catalog_contains_requested_theme_families() {
    let themes = Theme::builtins();
    assert!(themes.iter().any(|name| *name == "light"));
    assert!(themes.iter().any(|name| *name == "midnight"));
    assert!(themes.iter().any(|name| *name == "paper"));
    assert!(themes.iter().any(|name| *name == "vscode_abyss"));
    assert_eq!(Theme::display_name("vscode_dark_plus"), "VS Code Dark Plus");
    assert!(!Theme::is_dark("vscode_light_plus"));
    assert!(Theme::is_dark("zed_dark"));

    let names: Vec<_> = themes.iter().map(|name| Theme::display_name(name)).collect();
    let mut sorted_names = names.clone();
    sorted_names.sort();
    assert_eq!(names, sorted_names);
}

#[test]
fn builtins_hold_every_theme_once() {
    let themes = Theme::builtins();
    assert_eq!(themes.len(), 27);
    let mut unique = themes.clone();
    unique.sort();
    unique.dedup();
    assert_eq!(unique.len(), 27);
    assert_eq!(themes[0], "ayu_dark");
}

#[test]
fn display_names_capitalise_words() {
    assert_eq!(Theme::display_name("high_contrast"), "High Contrast");
    assert_eq!(Theme::display_name("zed_dark"), "Zed Dark");
    assert_eq!(Theme::display_name("vscode_vscode_x"), "VS Code VS Code X");
    assert_eq!(Theme::display_name(""), "");
    assert_eq!(Theme::display_name("a__b"), "A  B");
}

#[test]
fn from_name_picks_the_theme_or_zed_dark() {
    let nord = Theme::from_name(Some("nord"));
    assert_eq!(nord.bg_main, Theme::nord().bg_main);
    assert_eq!(nord.ansi, Theme::nord().ansi);
    let unknown = Theme::from_name(Some("no such theme"));
    assert_eq!(unknown.bg_main, Theme::zed_dark().bg_main);
    let none = Theme::from_name(None);
    assert_eq!(none.accent, Theme::zed_dark().accent);
    assert_eq!(Theme::default().text_primary, Theme::zed_dark().text_primary);
}

#[test]
fn light_themes_are_not_dark() {
    for name in ["light", "paper", "lavender", "sand", "one_light", "solarized_light"] {
        assert!(!Theme::is_dark(name), "{}", name);
    }
    for name in ["midnight", "dracula", "high_contrast", "anything"] {
        assert!(Theme::is_dark(name), "{}", name);
    }
}

#[test]
fn midnight_palette_values() {
    let t = Theme::midnight();
    assert_eq!(t.bg_main, 0x141827);
    assert_eq!(t.accent, 0x8ea7ff);
    assert_eq!(t.ansi[0], 0x1a1e2e);
    assert_eq!(t.ansi[15], 0xffffff);
}

#[test]
fn terminal_colours_follow_the_theme() {
    let t = Theme::ubuntu();
    let c = theme_terminal_colors(&t);
    assert_eq!(c.fg, [0xff, 0xff, 0xff]);
    assert_eq!(c.bg, [0x30, 0x0a, 0x24]);
    assert_eq!(c.ansi[1], [0xcc, 0x00, 0x00]);
}
