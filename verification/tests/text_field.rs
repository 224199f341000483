use vterm::text_field::{clipboard_command, shortcut_modifier, ClipboardCommand, Modifiers, TextField};

fn no_mods() -> Modifiers {
    Modifiers { platform: false, shift: false, control: false, alt: false, function: false }
}

fn shift() -> Modifiers {
    Modifiers { shift: true, ..no_mods() }
}

fn mods(platform: bool, control: bool, alt: bool) -> Modifiers {
    Modifiers { platform, control, alt, shift: false, function: false }
}

#[test]
fn shortcut_modifier_matches_platform_conventions() {
    for on_macos in [true, false] {
        assert!(shortcut_modifier(&mods(true, false, false), on_macos));
        assert!(!shortcut_modifier(&mods(false, true, true), on_macos));
    }
    assert!(!shortcut_modifier(&mods(false, true, false), true));
    assert!(shortcut_modifier(&mods(false, true, false), false));
}

#[test]
fn inserts_shifted_keys_verbatim() {
    let mut field = TextField::new("");
    assert_eq!(field.apply_simple_key("A", &shift(), false), Some(true));
    assert_eq!(field.apply_simple_key("!", &shift(), false), Some(true));
    assert_eq!(field.value(), "A!");
}

#[test]
fn ignores_shortcut_combos_without_clipboard() {
    let mut field = TextField::new("hi");
    let mods = Modifiers { platform: true, ..no_mods() };
    let ctrl = Modifiers { control: true, ..no_mods() };
    assert_eq!(field.apply_simple_key("c", &ctrl, true), Some(false));
    assert_eq!(field.value(), "hi");
    assert_eq!(field.apply_simple_key("a", &mods, true), Some(true));
}

#[test]
fn backspace_removes_combining_codepoint() {
    let mut field = TextField::new("สวัสดี");
    assert_eq!(field.apply_simple_key("backspace", &no_mods(), false), Some(true));
    assert_eq!(field.value(), "สวัสด");
}

#[test]
fn ctrl_a_selects_all_off_macos() {
    let ctrl = Modifiers { control: true, ..no_mods() };

    let mut field = TextField::new("hi");
    field.apply_simple_key("a", &ctrl, true);
    field.apply_simple_key("backspace", &no_mods(), true);
    assert_eq!(field.value(), "h", "Ctrl+A must not select on macOS");

    let mut field = TextField::new("hi");
    field.apply_simple_key("a", &ctrl, false);
    field.apply_simple_key("backspace", &no_mods(), false);
    assert_eq!(field.value(), "", "Ctrl+A must select all off macOS");
}

#[test]
fn arrows_extend_and_typing_replaces_the_selection() {
    let mut field = TextField::new("hello");
    field.apply_simple_key("left", &no_mods(), false);
    field.apply_simple_key("left", &shift(), false);
    field.apply_simple_key("left", &shift(), false);
    assert_eq!(field.selected_text(), Some("ll".to_string()));
    assert_eq!(field.selection(), Some((2, 4)));
    field.apply_simple_key("X", &shift(), false);
    assert_eq!(field.value(), "heXo");
    assert_eq!(field.selection(), None);
}

#[test]
fn delete_home_end_and_space() {
    let mut field = TextField::new("abc");
    field.apply_simple_key("home", &no_mods(), false);
    field.apply_simple_key("delete", &no_mods(), false);
    assert_eq!(field.value(), "bc");
    field.apply_simple_key("end", &no_mods(), false);
    field.apply_simple_key("space", &no_mods(), false);
    field.apply_simple_key("d", &no_mods(), false);
    assert_eq!(field.value(), "bc d");
    field.apply_simple_key("delete", &no_mods(), false);
    assert_eq!(field.value(), "bc d");
    assert_eq!(field.apply_simple_key("enter", &no_mods(), false), Some(false));
    assert_eq!(field.apply_simple_key("escape", &no_mods(), false), Some(false));
    assert_eq!(field.apply_simple_key("f5", &no_mods(), false), None);
}

#[test]
fn select_all_then_remove() {
    let mut field = TextField::new("abc");
    field.select_all();
    assert!(field.remove_selection());
    assert_eq!(field.value(), "");
    assert!(!field.remove_selection());
    field.insert("xyz");
    assert_eq!(field.value(), "xyz");
    field.move_caret(-1, false);
    field.insert("_");
    assert_eq!(field.value(), "xy_z");
}

#[test]
fn clipboard_shortcuts_are_left_to_the_clipboard_path() {
    let mut field = TextField::new("hi");
    let cmd = mods(true, false, false);
    let ctrl = mods(false, true, false);
    assert_eq!(field.apply_simple_key("c", &cmd, true), None);
    assert_eq!(field.apply_simple_key("v", &cmd, true), None);
    assert_eq!(field.apply_simple_key("x", &ctrl, false), None);
    assert_eq!(field.apply_simple_key("q", &cmd, true), Some(false));
    assert_eq!(field.value(), "hi");
}

#[test]
fn clipboard_shortcuts() {
    let cmd = Modifiers { platform: true, ..no_mods() };
    assert_eq!(clipboard_command("c", &cmd, true), Some(ClipboardCommand::Copy));
    assert_eq!(clipboard_command("x", &cmd, true), Some(ClipboardCommand::Cut));
    assert_eq!(clipboard_command("v", &cmd, true), Some(ClipboardCommand::Paste));
    assert_eq!(clipboard_command("v", &no_mods(), true), None);
    assert_eq!(clipboard_command("q", &cmd, true), None);
}

#[test]
fn caret_and_selection_stay_within_the_text_over_any_keys() {
    let mut f = TextField::new("héllo");
    let keys = ["left", "left", "backspace", "delete", "end", "right", "home", "x", "space", "delete", "delete", "backspace"];
    for (i, key) in keys.iter().enumerate() {
        let m = if i % 3 == 0 { shift() } else { no_mods() };
        f.apply_simple_key(key, &m, true);
        let len = f.value().chars().count();
        assert!(f.caret() <= len);
        if let Some((lo, hi)) = f.selection() {
            assert!(lo <= hi && hi <= len);
        }
    }
    f.apply_simple_key("a", &mods(true, false, false), true);
    f.apply_simple_key("backspace", &no_mods(), true);
    assert_eq!(f.value(), "");
    assert_eq!(f.caret(), 0);
}
