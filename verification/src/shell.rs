//! Decisions about the shell a terminal spawns: whether it is zsh (which
//! gets the codepoint-wise backspace integration) and which inherited
//! environment variables are another terminal's identity and are removed.

use vstd::prelude::*;
use crate::text::{chars_of, str_eq};

verus! {

/// The text after the last `/` of `s` (all of `s` when it has none): what
/// `s.rsplit('/').next()` gives.
pub open spec fn last_component(s: Seq<char>) -> Seq<char>
    decreases s.len(),
{
    if s.len() == 0 {
        s
    } else if s.last() == '/' {
        Seq::empty()
    } else {
        last_component(s.drop_last()).push(s.last())
    }
}

/// Whether the shell at path `shell` is zsh: its last path component is
/// `zsh`.
pub fn is_zsh(shell: &str) -> (r: bool)
    ensures
        r == (last_component(shell@) == "zsh"@),
{
    proof {
        reveal_strlit("zsh");
    }
    let s = chars_of(shell);
    let mut start: usize = s.len();
    assert(s@.take(start as int) =~= s@);
    assert(last_component(s@) + s@.skip(start as int) =~= last_component(s@));
    while start > 0 && s[start - 1] != '/'
        invariant
            start <= s@.len(),
            last_component(s@) == last_component(s@.take(start as int)) + s@.skip(start as int),
        decreases start,
    {
        let ghost t = s@.take(start as int);
        assert(t.drop_last() =~= s@.take(start - 1));
        assert(s@.skip(start - 1) =~= seq![s@[start - 1]] + s@.skip(start as int));
        assert(last_component(t) == last_component(t.drop_last()).push(t.last()));
        assert(last_component(t.drop_last()).push(t.last()) + s@.skip(start as int)
            =~= last_component(s@.take(start - 1)) + s@.skip(start - 1));
        start = start - 1;
    }
    proof {
        let t = s@.take(start as int);
        if start > 0 {
            assert(t.last() == s@[start - 1]);
        }
        assert(last_component(t) =~= Seq::<char>::empty());
        assert(last_component(s@) =~= s@.skip(start as int));
    }
    let n = s.len();
    if n - start != 3 {
        return false;
    }
    let r = s[start] == 'z' && s[start + 1] == 's' && s[start + 2] == 'h';
    proof {
        let tail = s@.skip(start as int);
        if r {
            assert(tail =~= "zsh"@);
        }
        if tail == "zsh"@ {
            assert(tail[0] == 'z' && tail[1] == 's' && tail[2] == 'h');
        }
    }
    r
}

/// Whether `name` ends with `_SHELL_INTEGRATION`.
pub open spec fn is_integration_var(name: Seq<char>) -> bool {
    name.len() >= 18 && name.skip(name.len() - 18) == "_SHELL_INTEGRATION"@
}

/// The environment variables of other terminals that a spawned shell must
/// not inherit: the identity variables of Zed, iTerm, WezTerm and kitty,
/// and every `*_SHELL_INTEGRATION` switch.
pub open spec fn is_foreign_terminal_var(name: Seq<char>) -> bool {
    ||| name == "ZED_TERM"@
    ||| name == "ITERM_SESSION_ID"@
    ||| name == "ITERM_PROFILE"@
    ||| name == "WEZTERM_EXECUTABLE"@
    ||| name == "WEZTERM_PANE"@
    ||| name == "KITTY_WINDOW_ID"@
    ||| name == "KITTY_PID"@
    ||| is_integration_var(name)
}

/// Whether a spawned shell must not inherit the variable `name`; see
/// `is_foreign_terminal_var`.
pub fn strips_env_var(name: &str) -> (r: bool)
    ensures
        r == is_foreign_terminal_var(name@),
{
    if str_eq(name, "ZED_TERM") || str_eq(name, "ITERM_SESSION_ID") || str_eq(name, "ITERM_PROFILE")
        || str_eq(name, "WEZTERM_EXECUTABLE") || str_eq(name, "WEZTERM_PANE") || str_eq(
        name,
        "KITTY_WINDOW_ID",
    ) || str_eq(name, "KITTY_PID") {
        return true;
    }
    proof {
        reveal_strlit("_SHELL_INTEGRATION");
    }
    let s = chars_of(name);
    let suffix = chars_of("_SHELL_INTEGRATION");
    ends_with_chars(&s, &suffix)
}

/// Whether `s` ends with `suffix`.
fn ends_with_chars(s: &Vec<char>, suffix: &Vec<char>) -> (r: bool)
    ensures
        r == (s@.len() >= suffix@.len() && s@.skip(s@.len() - suffix@.len()) == suffix@),
{
    let n = s.len();
    let m = suffix.len();
    if n < m {
        return false;
    }
    let off = n - m;
    let mut k: usize = 0;
    while k < m
        invariant
            k <= m,
            n == s@.len(),
            m == suffix@.len(),
            off + m == n,
            forall|j: int| 0 <= j < k ==> s@[off + j] == suffix@[j],
        decreases m - k,
    {
        if s[off + k] != suffix[k] {
            assert(s@.skip(off as int)[k as int] != suffix@[k as int]);
            return false;
        }
        k = k + 1;
    }
    assert(s@.skip(off as int) =~= suffix@);
    true
}

/// The texts of name/value pairs.
pub open spec fn pair_views(v: Seq<(String, String)>) -> Seq<(Seq<char>, Seq<char>)> {
    Seq::new(v.len(), |i: int| (v[i].0@, v[i].1@))
}

/// The variables every spawned shell gets, so that programs see a full
/// colour terminal with a dark background and this terminal's identity:
/// `TERM`, `COLORTERM`, `TERM_PROGRAM` (the given application name, else
/// `vterm`), `TERM_PROGRAM_VERSION` (the given development version, else
/// the package version) and `COLORFGBG`.
pub open spec fn identity_env_spec(
    app_name: Option<Seq<char>>,
    dev_version: Option<Seq<char>>,
    package_version: Seq<char>,
) -> Seq<(Seq<char>, Seq<char>)> {
    seq![
        ("TERM"@, "xterm-256color"@),
        ("COLORTERM"@, "truecolor"@),
        ("TERM_PROGRAM"@, match app_name { Some(n) => n, None => "vterm"@ }),
        ("TERM_PROGRAM_VERSION"@, match dev_version { Some(v) => v, None => package_version }),
        ("COLORFGBG"@, "15;0"@),
    ]
}

/// The variables to set on a spawned shell (`identity_env_spec`), given
/// the values of `VTERM_APP_NAME` and `VTERM_DEV_VERSION` when they are set
/// and the package version.
pub fn identity_env(
    app_name: Option<String>,
    dev_version: Option<String>,
    package_version: &str,
) -> (r: Vec<(String, String)>)
    ensures
        pair_views(r@) == identity_env_spec(
            match app_name { Some(n) => Some(n@), None => None },
            match dev_version { Some(v) => Some(v@), None => None },
            package_version@,
        ),
{
    let program = match app_name {
        Some(n) => n,
        None => String::from_str("vterm"),
    };
    let version = match dev_version {
        Some(v) => v,
        None => String::from_str(package_version),
    };
    let mut r: Vec<(String, String)> = Vec::new();
    r.push((String::from_str("TERM"), String::from_str("xterm-256color")));
    r.push((String::from_str("COLORTERM"), String::from_str("truecolor")));
    r.push((String::from_str("TERM_PROGRAM"), program));
    r.push((String::from_str("TERM_PROGRAM_VERSION"), version));
    r.push((String::from_str("COLORFGBG"), String::from_str("15;0")));
    r
}

} // verus!
