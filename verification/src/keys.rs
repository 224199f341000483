//! What a keystroke in the main window does: which overlay takes it,
//! which application shortcut it fires, and which bytes it sends to the
//! shell of the active terminal.

use vstd::prelude::*;
use crate::text::{chars_of, str_eq};
use crate::text_field::Modifiers;

verus! {

/// What the application does with a keystroke.
#[derive(Clone, Copy, PartialEq, Eq, Structural, Debug)]
pub enum KeyAction {
    /// Settings are open and the key is `escape`: close them.
    CloseSettings,
    /// Settings are open: the key does nothing.
    Ignore,
    /// An alert is open and the key is `enter` or `escape`: dismiss it.
    DismissAlert,
    /// An alert is open: the key is swallowed.
    Swallow,
    /// A rename dialog is open and the key is `enter`: apply the new name.
    ConfirmRename,
    /// A rename dialog is open and the key is `escape`: drop it.
    CancelRename,
    /// A rename dialog is open: the key goes to its text field.
    EditRename,
    /// ⌘= or ⌘+: one point larger.
    FontBigger,
    /// ⌘-: one point smaller.
    FontSmaller,
    /// ⌘0: back to the default font size.
    FontReset,
    /// ⌘C: copy the selection.
    Copy,
    /// ⌘A: select the whole visible screen.
    SelectScreen,
    /// ⌘V: paste the clipboard.
    Paste,
    /// ⌘K: send form feed (clear) to the shell.
    ClearScreen,
    /// ⌘T: open a tab.
    NewTab,
    /// ⌘N: open a workspace.
    NewWorkspace,
    /// ⌘W: close the active tab.
    CloseTab,
    /// Send the key's bytes (`key_bytes`) to the active terminal.
    SendKey,
    /// The key means nothing to the application.
    Unhandled,
}

/// The byte a Ctrl chord with the single character `c` sends: Ctrl+a is 1,
/// through Ctrl+z at 26; other characters send nothing.
pub open spec fn control_bytes(c: char) -> Seq<u8> {
    if 'a' <= c <= 'z' {
        seq![((c as u32) - ('a' as u32) + 1) as u8]
    } else {
        Seq::empty()
    }
}

/// The bytes a key sends to the shell: the named keys their control codes
/// and escape sequences, a Ctrl chord with a lowercase letter its control
/// byte, anything else nothing.
pub open spec fn key_bytes_spec(key: Seq<char>, control: bool) -> Seq<u8> {
    if key == "enter"@ {
        seq![0x0du8]
    } else if key == "backspace"@ {
        seq![0x7fu8]
    } else if key == "tab"@ {
        seq![0x09u8]
    } else if key == "escape"@ {
        seq![0x1bu8]
    } else if key == "up"@ {
        seq![0x1bu8, 0x5bu8, 0x41u8]
    } else if key == "down"@ {
        seq![0x1bu8, 0x5bu8, 0x42u8]
    } else if key == "right"@ {
        seq![0x1bu8, 0x5bu8, 0x43u8]
    } else if key == "left"@ {
        seq![0x1bu8, 0x5bu8, 0x44u8]
    } else if key == "space"@ {
        seq![0x20u8]
    } else if control && key.len() == 1 {
        control_bytes(key[0])
    } else {
        Seq::empty()
    }
}

/// The application shortcut that ⌘ with `key` fires, if any.
pub open spec fn shortcut_spec(key: Seq<char>) -> Option<KeyAction> {
    if key == "="@ || key == "+"@ {
        Some(KeyAction::FontBigger)
    } else if key == "-"@ {
        Some(KeyAction::FontSmaller)
    } else if key == "0"@ {
        Some(KeyAction::FontReset)
    } else if key == "c"@ {
        Some(KeyAction::Copy)
    } else if key == "a"@ {
        Some(KeyAction::SelectScreen)
    } else if key == "v"@ {
        Some(KeyAction::Paste)
    } else if key == "k"@ {
        Some(KeyAction::ClearScreen)
    } else if key == "t"@ {
        Some(KeyAction::NewTab)
    } else if key == "n"@ {
        Some(KeyAction::NewWorkspace)
    } else if key == "w"@ {
        Some(KeyAction::CloseTab)
    } else {
        None
    }
}

/// What a keystroke does, given which overlays are open: open settings
/// take every key (only `escape` does something), then an open alert,
/// then an open rename dialog; otherwise ⌘ shortcuts come first and the
/// rest is sent to the shell when it maps to any bytes.
pub open spec fn key_action_spec(
    settings_open: bool,
    alert_open: bool,
    renaming: bool,
    key: Seq<char>,
    m: Modifiers,
) -> KeyAction {
    if settings_open {
        if key == "escape"@ {
            KeyAction::CloseSettings
        } else {
            KeyAction::Ignore
        }
    } else if alert_open {
        if key == "enter"@ || key == "escape"@ {
            KeyAction::DismissAlert
        } else {
            KeyAction::Swallow
        }
    } else if renaming {
        if key == "enter"@ {
            KeyAction::ConfirmRename
        } else if key == "escape"@ {
            KeyAction::CancelRename
        } else {
            KeyAction::EditRename
        }
    } else if m.platform && shortcut_spec(key) is Some {
        shortcut_spec(key)->0
    } else if key_bytes_spec(key, m.control).len() > 0 {
        KeyAction::SendKey
    } else {
        KeyAction::Unhandled
    }
}

/// The bytes `key` sends to the shell, with Ctrl held or not.
pub fn key_bytes(key: &str, control: bool) -> (bytes: Vec<u8>)
    ensures
        bytes@ == key_bytes_spec(key@, control),
{
    proof {
        reveal_strlit("enter");
        reveal_strlit("backspace");
        reveal_strlit("tab");
        reveal_strlit("escape");
        reveal_strlit("up");
        reveal_strlit("down");
        reveal_strlit("right");
        reveal_strlit("left");
        reveal_strlit("space");
    }
    if str_eq(key, "enter") {
        vec![0x0d]
    } else if str_eq(key, "backspace") {
        vec![0x7f]
    } else if str_eq(key, "tab") {
        vec![0x09]
    } else if str_eq(key, "escape") {
        vec![0x1b]
    } else if str_eq(key, "up") {
        vec![0x1b, 0x5b, 0x41]
    } else if str_eq(key, "down") {
        vec![0x1b, 0x5b, 0x42]
    } else if str_eq(key, "right") {
        vec![0x1b, 0x5b, 0x43]
    } else if str_eq(key, "left") {
        vec![0x1b, 0x5b, 0x44]
    } else if str_eq(key, "space") {
        vec![0x20]
    } else if control && key.unicode_len() == 1 {
        let chars = chars_of(key);
        let c = chars[0];
        if 'a' <= c && c <= 'z' {
            let b = ((c as u32) - ('a' as u32) + 1) as u8;
            vec![b]
        } else {
            Vec::new()
        }
    } else {
        Vec::new()
    }
}

/// The application shortcut that ⌘ with `key` fires, if any.
fn shortcut(key: &str) -> (r: Option<KeyAction>)
    ensures
        r == shortcut_spec(key@),
{
    if str_eq(key, "=") || str_eq(key, "+") {
        Some(KeyAction::FontBigger)
    } else if str_eq(key, "-") {
        Some(KeyAction::FontSmaller)
    } else if str_eq(key, "0") {
        Some(KeyAction::FontReset)
    } else if str_eq(key, "c") {
        Some(KeyAction::Copy)
    } else if str_eq(key, "a") {
        Some(KeyAction::SelectScreen)
    } else if str_eq(key, "v") {
        Some(KeyAction::Paste)
    } else if str_eq(key, "k") {
        Some(KeyAction::ClearScreen)
    } else if str_eq(key, "t") {
        Some(KeyAction::NewTab)
    } else if str_eq(key, "n") {
        Some(KeyAction::NewWorkspace)
    } else if str_eq(key, "w") {
        Some(KeyAction::CloseTab)
    } else {
        None
    }
}

/// Decides what a keystroke does in the main window; see
/// `key_action_spec`.
pub fn key_action(settings_open: bool, alert_open: bool, renaming: bool, key: &str, m: &Modifiers) -> (a:
    KeyAction)
    ensures
        a == key_action_spec(settings_open, alert_open, renaming, key@, *m),
{
    if settings_open {
        if str_eq(key, "escape") {
            KeyAction::CloseSettings
        } else {
            KeyAction::Ignore
        }
    } else if alert_open {
        if str_eq(key, "enter") || str_eq(key, "escape") {
            KeyAction::DismissAlert
        } else {
            KeyAction::Swallow
        }
    } else if renaming {
        if str_eq(key, "enter") {
            KeyAction::ConfirmRename
        } else if str_eq(key, "escape") {
            KeyAction::CancelRename
        } else {
            KeyAction::EditRename
        }
    } else {
        if m.platform {
            if let Some(action) = shortcut(key) {
                return action;
            }
        }
        let bytes = key_bytes(key, m.control);
        if bytes.len() > 0 {
            KeyAction::SendKey
        } else {
            KeyAction::Unhandled
        }
    }
}

} // verus!
