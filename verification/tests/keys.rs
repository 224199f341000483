use vterm::keys::{key_action, key_bytes, KeyAction};
use vterm::text::{decimal_chars, numbered_name, utf16_len_of, utf16_to_byte_offset};
use vterm::text_field::Modifiers;

fn none() -> Modifiers {
    Modifiers { platform: false, shift: false, control: false, alt: false, function: false }
}

#[test]
fn named_keys_send_their_sequences() {
    assert_eq!(key_bytes("enter", false), vec![b'\r']);
    assert_eq!(key_bytes("backspace", false), vec![0x7f]);
    assert_eq!(key_bytes("tab", false), vec![b'\t']);
    assert_eq!(key_bytes("escape", false), vec![0x1b]);
    assert_eq!(key_bytes("up", false), vec![0x1b, b'[', b'A']);
    assert_eq!(key_bytes("down", false), vec![0x1b, b'[', b'B']);
    assert_eq!(key_bytes("right", false), vec![0x1b, b'[', b'C']);
    assert_eq!(key_bytes("left", false), vec![0x1b, b'[', b'D']);
    assert_eq!(key_bytes("space", false), vec![b' ']);
    assert_eq!(key_bytes("c", true), vec![3]);
    assert_eq!(key_bytes("a", true), vec![1]);
    assert_eq!(key_bytes("z", true), vec![26]);
    assert_eq!(key_bytes("C", true), Vec::<u8>::new());
    assert_eq!(key_bytes("c", false), Vec::<u8>::new());
    assert_eq!(key_bytes("f1", true), Vec::<u8>::new());
}

#[test]
fn overlays_take_keys_first() {
    let cmd = Modifiers { platform: true, ..none() };
    assert_eq!(key_action(true, false, false, "escape", &none()), KeyAction::CloseSettings);
    assert_eq!(key_action(true, true, true, "c", &cmd), KeyAction::Ignore);
    assert_eq!(key_action(false, true, false, "enter", &none()), KeyAction::DismissAlert);
    assert_eq!(key_action(false, true, true, "v", &cmd), KeyAction::Swallow);
    assert_eq!(key_action(false, false, true, "enter", &none()), KeyAction::ConfirmRename);
    assert_eq!(key_action(false, false, true, "escape", &none()), KeyAction::CancelRename);
    assert_eq!(key_action(false, false, true, "a", &cmd), KeyAction::EditRename);
}

#[test]
fn command_shortcuts_then_shell_keys() {
    let cmd = Modifiers { platform: true, ..none() };
    assert_eq!(key_action(false, false, false, "=", &cmd), KeyAction::FontBigger);
    assert_eq!(key_action(false, false, false, "+", &cmd), KeyAction::FontBigger);
    assert_eq!(key_action(false, false, false, "-", &cmd), KeyAction::FontSmaller);
    assert_eq!(key_action(false, false, false, "0", &cmd), KeyAction::FontReset);
    assert_eq!(key_action(false, false, false, "c", &cmd), KeyAction::Copy);
    assert_eq!(key_action(false, false, false, "a", &cmd), KeyAction::SelectScreen);
    assert_eq!(key_action(false, false, false, "v", &cmd), KeyAction::Paste);
    assert_eq!(key_action(false, false, false, "k", &cmd), KeyAction::ClearScreen);
    assert_eq!(key_action(false, false, false, "t", &cmd), KeyAction::NewTab);
    assert_eq!(key_action(false, false, false, "n", &cmd), KeyAction::NewWorkspace);
    assert_eq!(key_action(false, false, false, "w", &cmd), KeyAction::CloseTab);
    assert_eq!(key_action(false, false, false, "enter", &cmd), KeyAction::SendKey);
    assert_eq!(key_action(false, false, false, "x", &cmd), KeyAction::Unhandled);
    assert_eq!(key_action(false, false, false, "up", &none()), KeyAction::SendKey);
    let ctrl = Modifiers { control: true, ..none() };
    assert_eq!(key_action(false, false, false, "d", &ctrl), KeyAction::SendKey);
    assert_eq!(key_action(false, false, false, "d", &none()), KeyAction::Unhandled);
}

#[test]
fn utf16_offsets_handle_multibyte_and_surrogate_characters() {
    let text = "Aส🙂";
    assert_eq!(utf16_to_byte_offset(text, 0), 0);
    assert_eq!(utf16_to_byte_offset(text, 1), 1);
    assert_eq!(utf16_to_byte_offset(text, 2), 4);
    assert_eq!(utf16_to_byte_offset(text, 4), 8);
    assert_eq!(utf16_to_byte_offset(text, 9), 8);
}

#[test]
fn utf16_lengths() {
    assert_eq!(utf16_len_of("Aส🙂"), 4);
    assert_eq!(utf16_len_of(""), 0);
    // An offset inside a surrogate pair rounds up past the character.
    assert_eq!(utf16_to_byte_offset("Aส🙂", 3), 8);
}

#[test]
fn numbered_names_use_plain_decimal() {
    assert_eq!(numbered_name("Workspace", 2), "Workspace 2");
    assert_eq!(numbered_name("zsh", 10), "zsh 10");
    assert_eq!(numbered_name("", 0), " 0");
    assert_eq!(decimal_chars(1203), vec!['1', '2', '0', '3']);
}
