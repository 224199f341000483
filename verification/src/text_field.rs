//! The single-line editable text field of the rename dialogs: caret,
//! selection, and the editing keys.
//!
//! The caret and the selection anchor are character positions; the
//! application's renderer turns them into byte offsets where it needs to.

use vstd::prelude::*;
use crate::text::{chars_of, str_eq, string_from_chars};

verus! {

/// The modifier keys held with a keystroke.
#[derive(Clone, Copy, PartialEq, Eq, Debug, Default)]
pub struct Modifiers {
    pub platform: bool,
    pub shift: bool,
    pub control: bool,
    pub alt: bool,
    pub function: bool,
}

/// Menu-shortcut modifier: ⌘ on macOS, Ctrl elsewhere. Alt is excluded so
/// AltGr combos on international Windows layouts keep typing characters
/// instead of firing shortcuts.
pub open spec fn shortcut_modifier_spec(m: Modifiers, on_macos: bool) -> bool {
    m.platform || (!on_macos && m.control && !m.alt)
}

/// Whether `m` holds the menu-shortcut modifier on the platform given by
/// `on_macos`.
pub fn shortcut_modifier(m: &Modifiers, on_macos: bool) -> (r: bool)
    ensures
        r == shortcut_modifier_spec(*m, on_macos),
{
    m.platform || (!on_macos && m.control && !m.alt)
}

/// The editing state: the text, the caret, and where a selection started.
pub struct FieldState {
    pub text: Seq<char>,
    pub caret: int,
    pub anchor: Option<int>,
}

/// Minimal single-line editable text field with caret and selection.
#[derive(Clone, Debug)]
pub struct TextField {
    value: Vec<char>,
    /// Character position of the caret.
    caret: usize,
    /// Character position where the active selection started, if any.
    anchor: Option<usize>,
}

/// The selected range, from its lower to its upper end.
pub open spec fn selection_of(s: FieldState) -> Option<(int, int)> {
    match s.anchor {
        Some(a) => Some((if a <= s.caret {
            a
        } else {
            s.caret
        }, if a >= s.caret {
            a
        } else {
            s.caret
        })),
        None => None,
    }
}

/// The state once the selection, if any, is deleted (caret at its start).
pub open spec fn remove_selection_spec(s: FieldState) -> FieldState {
    match selection_of(s) {
        Some((lo, hi)) => FieldState {
            text: s.text.take(lo) + s.text.skip(hi),
            caret: lo,
            anchor: None,
        },
        None => s,
    }
}

/// The state once `t` is typed: it replaces the selection, if any, and
/// the caret moves past it.
pub open spec fn insert_spec(s: FieldState, t: Seq<char>) -> FieldState {
    let r = remove_selection_spec(s);
    FieldState {
        text: r.text.take(r.caret) + t + r.text.skip(r.caret),
        caret: r.caret + t.len(),
        anchor: None,
    }
}

/// The state after moving the caret to `target`, extending the selection
/// (anchored where the caret was) or dropping it.
pub open spec fn move_caret_spec(s: FieldState, target: int, extend: bool) -> FieldState {
    FieldState {
        text: s.text,
        caret: target,
        anchor: if extend {
            match s.anchor {
                Some(a) => Some(a),
                None => Some(s.caret),
            }
        } else {
            None
        },
    }
}

/// What `apply_simple_key` does to the field and answers: `Some(true)`
/// when it consumed the key, `Some(false)` for keys it leaves to the
/// caller (`enter`, `escape`, shortcut combos), `None` for keys it does
/// not handle (the clipboard shortcuts among them).
pub open spec fn simple_key_spec(s: FieldState, key: Seq<char>, m: Modifiers, on_macos: bool) -> (
    Option<bool>,
    FieldState,
) {
    let len = s.text.len() as int;
    if key == "enter"@ || key == "escape"@ {
        (Some(false), s)
    } else if key == "backspace"@ {
        (Some(true), if selection_of(s) is Some {
            remove_selection_spec(s)
        } else if s.caret > 0 {
            FieldState {
                text: s.text.take(s.caret - 1) + s.text.skip(s.caret),
                caret: s.caret - 1,
                anchor: s.anchor,
            }
        } else {
            s
        })
    } else if key == "delete"@ {
        (Some(true), if selection_of(s) is Some {
            remove_selection_spec(s)
        } else if s.caret < len {
            FieldState {
                text: s.text.take(s.caret) + s.text.skip(s.caret + 1),
                caret: s.caret,
                anchor: s.anchor,
            }
        } else {
            s
        })
    } else if key == "left"@ {
        (Some(true), move_caret_spec(s, if s.caret > 0 { s.caret - 1 } else { 0 }, m.shift))
    } else if key == "right"@ {
        (Some(true), move_caret_spec(s, if s.caret < len { s.caret + 1 } else { s.caret }, m.shift))
    } else if key == "home"@ {
        (Some(true), FieldState {
            text: s.text,
            caret: 0,
            anchor: if m.shift { s.anchor } else { None },
        })
    } else if key == "end"@ {
        (Some(true), FieldState {
            text: s.text,
            caret: len,
            anchor: if m.shift { s.anchor } else { None },
        })
    } else if key == "a"@ && shortcut_modifier_spec(m, on_macos) {
        (Some(true), FieldState { text: s.text, caret: len, anchor: Some(0) })
    } else if key == "space"@ {
        (Some(true), insert_spec(s, seq![' ']))
    } else if key.len() == 1 {
        if clipboard_command_spec(key, m, on_macos) is Some {
            (None, s)
        } else if m.platform || m.control || m.alt {
            (Some(false), s)
        } else {
            (Some(true), insert_spec(s, key))
        }
    } else {
        (None, s)
    }
}

/// The caret and the anchor, if any, lie within the text (character
/// positions, so every one of them is a character boundary).
pub open spec fn in_text(s: FieldState) -> bool {
    &&& 0 <= s.caret <= s.text.len()
    &&& (s.anchor matches Some(a) ==> 0 <= a <= s.text.len())
}

/// The state after the keys `keys` (each with its modifiers), in order.
pub open spec fn run_keys(s: FieldState, keys: Seq<(Seq<char>, Modifiers)>, on_macos: bool) -> FieldState
    decreases keys.len(),
{
    if keys.len() == 0 {
        s
    } else {
        run_keys(
            simple_key_spec(s, keys[0].0, keys[0].1, on_macos).1,
            keys.drop_first(),
            on_macos,
        )
    }
}

proof fn lemma_simple_key_in_text(s: FieldState, key: Seq<char>, m: Modifiers, on_macos: bool)
    requires
        in_text(s),
    ensures
        in_text(simple_key_spec(s, key, m, on_macos).1),
{
    let r = remove_selection_spec(s);
    assert(in_text(r));
}

/// Whatever keys a field receives, its caret and its anchor stay within
/// its text, so cutting the text at either never fails.
pub proof fn law_keys_keep_caret_in_text(
    s: FieldState,
    keys: Seq<(Seq<char>, Modifiers)>,
    on_macos: bool,
)
    requires
        in_text(s),
    ensures
        in_text(run_keys(s, keys, on_macos)),
    decreases keys.len(),
{
    if keys.len() > 0 {
        lemma_simple_key_in_text(s, keys[0].0, keys[0].1, on_macos);
        law_keys_keep_caret_in_text(
            simple_key_spec(s, keys[0].0, keys[0].1, on_macos).1,
            keys.drop_first(),
            on_macos,
        );
    }
}

/// A clipboard shortcut of the field.
#[derive(Clone, Copy, PartialEq, Eq, Debug)]
pub enum ClipboardCommand {
    Copy,
    Cut,
    Paste,
}

/// Which clipboard command `key` with `m` is, if any.
pub open spec fn clipboard_command_spec(key: Seq<char>, m: Modifiers, on_macos: bool) -> Option<
    ClipboardCommand,
> {
    if !shortcut_modifier_spec(m, on_macos) {
        None
    } else if key == "c"@ {
        Some(ClipboardCommand::Copy)
    } else if key == "x"@ {
        Some(ClipboardCommand::Cut)
    } else if key == "v"@ {
        Some(ClipboardCommand::Paste)
    } else {
        None
    }
}

/// Which clipboard command a keystroke is: the menu-shortcut modifier
/// with `c`, `x` or `v`.
pub fn clipboard_command(key: &str, m: &Modifiers, on_macos: bool) -> (r: Option<ClipboardCommand>)
    ensures
        r == clipboard_command_spec(key@, *m, on_macos),
{
    if !shortcut_modifier(m, on_macos) {
        None
    } else if str_eq(key, "c") {
        Some(ClipboardCommand::Copy)
    } else if str_eq(key, "x") {
        Some(ClipboardCommand::Cut)
    } else if str_eq(key, "v") {
        Some(ClipboardCommand::Paste)
    } else {
        None
    }
}

impl View for TextField {
    type V = FieldState;

    closed spec fn view(&self) -> FieldState {
        FieldState {
            text: self.value@,
            caret: self.caret as int,
            anchor: match self.anchor {
                Some(a) => Some(a as int),
                None => None,
            },
        }
    }
}

impl TextField {
    /// The caret and the anchor lie within the text.
    pub closed spec fn wf(&self) -> bool {
        &&& self.caret <= self.value@.len()
        &&& (self.anchor matches Some(a) ==> a <= self.value@.len())
    }

    /// A field holding `value`, the caret at its end, nothing selected.
    pub fn new(value: &str) -> (f: Self)
        ensures
            f.wf(),
            f@.text == value@,
            f@.caret == value@.len(),
            f@.anchor is None,
    {
        let value = chars_of(value);
        let caret = value.len();
        TextField { value, caret, anchor: None }
    }

    /// The text in the field.
    pub fn value(&self) -> (r: String)
        ensures
            r@ == self@.text,
    {
        string_from_chars(&self.value)
    }

    /// The caret's character position.
    pub fn caret(&self) -> (r: usize)
        ensures
            r == self@.caret,
    {
        self.caret
    }

    /// The selected range, lower end first.
    pub fn selection(&self) -> (r: Option<(usize, usize)>)
        ensures
            r matches Some(p) ==> selection_of(self@) == Some((p.0 as int, p.1 as int)),
            r is None ==> selection_of(self@) is None,
    {
        match self.anchor {
            Some(a) => Some((if a <= self.caret {
                a
            } else {
                self.caret
            }, if a >= self.caret {
                a
            } else {
                self.caret
            })),
            None => None,
        }
    }

    /// Selects the whole text, the caret at its end.
    pub fn select_all(&mut self)
        requires
            old(self).wf(),
        ensures
            final(self).wf(),
            final(self)@ == (FieldState {
                text: old(self)@.text,
                caret: old(self)@.text.len() as int,
                anchor: Some(0),
            }),
    {
        self.anchor = Some(0);
        self.caret = self.value.len();
    }

    /// The selected text, if anything is selected.
    pub fn selected_text(&self) -> (r: Option<String>)
        requires
            self.wf(),
        ensures
            selection_of(self@) matches Some((lo, hi)) ==> r matches Some(t) && t@
                == self@.text.subrange(lo, hi),
            selection_of(self@) is None ==> r is None,
    {
        match self.selection() {
            Some((lo, hi)) => {
                let mut out: Vec<char> = Vec::new();
                let mut k = lo;
                while k < hi
                    invariant
                        lo <= k <= hi <= self.value@.len(),
                        out@ == self.value@.subrange(lo as int, k as int),
                    decreases hi - k,
                {
                    out.push(self.value[k]);
                    k = k + 1;
                    assert(out@ =~= self.value@.subrange(lo as int, k as int));
                }
                Some(string_from_chars(&out))
            },
            None => None,
        }
    }

    /// Deletes the selection, if any, leaving the caret at its start.
    /// Returns whether there was one.
    pub fn remove_selection(&mut self) -> (removed: bool)
        requires
            old(self).wf(),
        ensures
            final(self).wf(),
            removed == (selection_of(old(self)@) is Some),
            final(self)@ == remove_selection_spec(old(self)@),
    {
        match self.selection() {
            Some((lo, hi)) => {
                let mut out: Vec<char> = Vec::new();
                let mut k: usize = 0;
                let n = self.value.len();
                while k < n
                    invariant
                        lo <= hi <= n == self.value@.len(),
                        k <= n,
                        k <= lo ==> out@ == self.value@.take(k as int),
                        lo <= k <= hi ==> out@ == self.value@.take(lo as int),
                        k >= hi ==> out@ == self.value@.take(lo as int) + self.value@.subrange(
                            hi as int,
                            k as int,
                        ),
                    decreases n - k,
                {
                    if k < lo || k >= hi {
                        out.push(self.value[k]);
                    }
                    k = k + 1;
                    proof {
                        if k <= lo {
                            assert(out@ =~= self.value@.take(k as int));
                        } else if k <= hi {
                            assert(out@ =~= self.value@.take(lo as int));
                        } else {
                            assert(out@ =~= self.value@.take(lo as int) + self.value@.subrange(
                                hi as int,
                                k as int,
                            ));
                        }
                    }
                }
                assert(self.value@.subrange(hi as int, n as int) =~= self.value@.skip(hi as int));
                self.value = out;
                self.caret = lo;
                self.anchor = None;
                true
            },
            None => false,
        }
    }

    /// Types `text` at the caret, replacing the selection if any.
    pub fn insert(&mut self, text: &str)
        requires
            old(self).wf(),
            old(self)@.text.len() + text@.len() <= usize::MAX,
        ensures
            final(self).wf(),
            final(self)@ == insert_spec(old(self)@, text@),
    {
        let t = chars_of(text);
        self.insert_chars(&t);
    }

    fn insert_chars(&mut self, t: &Vec<char>)
        requires
            old(self).wf(),
            old(self)@.text.len() + t@.len() <= usize::MAX,
        ensures
            final(self).wf(),
            final(self)@ == insert_spec(old(self)@, t@),
    {
        self.remove_selection();
        let c = self.caret;
        let n = self.value.len();
        let mut out: Vec<char> = Vec::new();
        let mut k: usize = 0;
        while k < c
            invariant
                k <= c <= n == self.value@.len(),
                out@ == self.value@.take(k as int),
            decreases c - k,
        {
            out.push(self.value[k]);
            k = k + 1;
            assert(out@ =~= self.value@.take(k as int));
        }
        let mut j: usize = 0;
        while j < t.len()
            invariant
                j <= t@.len(),
                c <= n == self.value@.len(),
                out@ == self.value@.take(c as int) + t@.take(j as int),
            decreases t@.len() - j,
        {
            out.push(t[j]);
            j = j + 1;
            assert(out@ =~= self.value@.take(c as int) + t@.take(j as int));
        }
        assert(t@.take(t@.len() as int) =~= t@);
        let mut k: usize = c;
        while k < n
            invariant
                c <= k <= n == self.value@.len(),
                out@ == self.value@.take(c as int) + t@ + self.value@.subrange(c as int, k as int),
            decreases n - k,
        {
            out.push(self.value[k]);
            k = k + 1;
            assert(out@ =~= self.value@.take(c as int) + t@ + self.value@.subrange(
                c as int,
                k as int,
            ));
        }
        assert(self.value@.subrange(c as int, n as int) =~= self.value@.skip(c as int));
        self.value = out;
        self.caret = c + t.len();
        self.anchor = None;
    }

    /// Moves the caret one character left (`delta < 0`), right
    /// (`delta > 0`) or not at all, extending the selection or dropping it.
    pub fn move_caret(&mut self, delta: isize, extend: bool)
        requires
            old(self).wf(),
        ensures
            final(self).wf(),
            final(self)@ == move_caret_spec(
                old(self)@,
                if delta < 0 {
                    if old(self)@.caret > 0 {
                        old(self)@.caret - 1
                    } else {
                        0
                    }
                } else if delta > 0 {
                    if old(self)@.caret < old(self)@.text.len() {
                        old(self)@.caret + 1
                    } else {
                        old(self)@.caret
                    }
                } else {
                    old(self)@.caret
                },
                extend,
            ),
    {
        let target = if delta < 0 {
            if self.caret > 0 {
                self.caret - 1
            } else {
                0
            }
        } else if delta > 0 {
            if self.caret < self.value.len() {
                self.caret + 1
            } else {
                self.caret
            }
        } else {
            self.caret
        };
        if extend {
            if self.anchor.is_none() {
                // Keep the old caret as the fixed end of the growing selection.
                self.anchor = Some(self.caret);
            }
        } else {
            self.anchor = None;
        }
        self.caret = target;
    }

    /// Handles keys that need no clipboard. Returns `Some(true)` when the
    /// key was consumed, `Some(false)` for keys left to the caller
    /// (`enter`/`escape` for confirm/cancel, and shortcut combos), `None`
    /// for keys not handled here (the clipboard shortcuts).
    pub fn apply_simple_key(&mut self, key: &str, modifiers: &Modifiers, on_macos: bool) -> (r:
        Option<bool>)
        requires
            old(self).wf(),
            old(self)@.text.len() + key@.len() + 1 <= usize::MAX,
        ensures
            final(self).wf(),
            (r, final(self)@) == simple_key_spec(old(self)@, key@, *modifiers, on_macos),
    {
        proof {
            reveal_strlit("enter");
            reveal_strlit("escape");
            reveal_strlit("backspace");
            reveal_strlit("delete");
            reveal_strlit("left");
            reveal_strlit("right");
            reveal_strlit("home");
            reveal_strlit("end");
            reveal_strlit("a");
            reveal_strlit("space");
            reveal_strlit(" ");
        }
        if str_eq(key, "enter") || str_eq(key, "escape") {
            Some(false)
        } else if str_eq(key, "backspace") {
            if !self.remove_selection() && self.caret > 0 {
                let start = self.caret - 1;
                self.caret = start;
                self.remove_range(start, start + 1);
            }
            Some(true)
        } else if str_eq(key, "delete") {
            if !self.remove_selection() && self.caret < self.value.len() {
                let c = self.caret;
                self.remove_range(c, c + 1);
            }
            Some(true)
        } else if str_eq(key, "left") {
            self.move_caret(-1, modifiers.shift);
            Some(true)
        } else if str_eq(key, "right") {
            self.move_caret(1, modifiers.shift);
            Some(true)
        } else if str_eq(key, "home") {
            if !modifiers.shift {
                self.anchor = None;
            }
            self.caret = 0;
            Some(true)
        } else if str_eq(key, "end") {
            if !modifiers.shift {
                self.anchor = None;
            }
            self.caret = self.value.len();
            Some(true)
        } else if str_eq(key, "a") && shortcut_modifier(modifiers, on_macos) {
            self.select_all();
            Some(true)
        } else if str_eq(key, "space") {
            assert(" "@ =~= seq![' ']);
            self.insert(" ");
            Some(true)
        } else if key.unicode_len() == 1 {
            // The key already carries Shift ("a"+Shift arrives as "A", "1"+Shift
            // as "!"), so it is inserted verbatim. Clipboard shortcuts and
            // other shortcut combos are left to the caller.
            if clipboard_command(key, modifiers, on_macos).is_some() {
                return None;
            }
            if modifiers.platform || modifiers.control || modifiers.alt {
                return Some(false);
            }
            self.insert(key);
            Some(true)
        } else {
            None
        }
    }

    /// Deletes the characters `lo..hi`, leaving caret and anchor as they are
    /// when they still lie within the text.
    fn remove_range(&mut self, lo: usize, hi: usize)
        requires
            old(self).wf(),
            lo <= hi <= old(self)@.text.len(),
            old(self).caret <= old(self)@.text.len() - (hi - lo),
            old(self).anchor matches Some(a) ==> a <= old(self)@.text.len() - (hi - lo),
        ensures
            final(self).wf(),
            final(self)@ == (FieldState {
                text: old(self)@.text.take(lo as int) + old(self)@.text.skip(hi as int),
                caret: old(self)@.caret,
                anchor: old(self)@.anchor,
            }),
    {
        let n = self.value.len();
        let mut out: Vec<char> = Vec::new();
        let mut k: usize = 0;
        while k < lo
            invariant
                k <= lo <= hi <= n == self.value@.len(),
                out@ == self.value@.take(k as int),
            decreases lo - k,
        {
            out.push(self.value[k]);
            k = k + 1;
            assert(out@ =~= self.value@.take(k as int));
        }
        let mut k: usize = hi;
        while k < n
            invariant
                lo <= hi <= k <= n == self.value@.len(),
                out@ == self.value@.take(lo as int) + self.value@.subrange(hi as int, k as int),
            decreases n - k,
        {
            out.push(self.value[k]);
            k = k + 1;
            assert(out@ =~= self.value@.take(lo as int) + self.value@.subrange(hi as int, k as int));
        }
        assert(self.value@.subrange(hi as int, n as int) =~= self.value@.skip(hi as int));
        self.value = out;
    }
}

} // verus!
