//! Reading the output of the helper programs the application runs: the
//! child processes `pgrep -P` lists, the working directory `lsof -F n`
//! reports, the sessions `screen -ls` lists and the branches `git`
//! prints. Running the programs stays with the application.

use vstd::prelude::*;
use crate::text::{chars_of, string_from_chars};

verus! {

/// Whether `c` has the Unicode `White_Space` property: tab, line feed,
/// vertical tab, form feed, carriage return, space, next line, no-break
/// space, ogham space mark, the spaces U+2000 to U+200A, line and
/// paragraph separator, narrow no-break space, medium mathematical space
/// and ideographic space.
pub open spec fn is_white_space(c: char) -> bool {
    let u = c as u32;
    ||| 0x09 <= u <= 0x0d
    ||| u == 0x20
    ||| u == 0x85
    ||| u == 0xa0
    ||| u == 0x1680
    ||| 0x2000 <= u <= 0x200a
    ||| u == 0x2028
    ||| u == 0x2029
    ||| u == 0x202f
    ||| u == 0x205f
    ||| u == 0x3000
}

/// `char::is_whitespace`: whether `c` has the Unicode `White_Space`
/// property, which holds of exactly the characters `is_white_space`
/// lists.
#[verifier::external_body]
pub(crate) fn char_is_whitespace(c: char) -> (r: bool)
    ensures
        r == is_white_space(c),
{
    c.is_whitespace()
}

/// The index of the first line feed in `s` at or after `i`, or the length
/// of `s` when there is none.
pub open spec fn next_newline(s: Seq<char>, i: int) -> int
    decreases s.len() - i,
{
    if i >= s.len() {
        s.len() as int
    } else if s[i] == '\n' {
        i
    } else {
        next_newline(s, i + 1)
    }
}

/// `next_newline` lies between `i` and the end.
pub proof fn lemma_next_newline(s: Seq<char>, i: int)
    requires
        0 <= i,
    ensures
        i <= s.len() ==> i <= next_newline(s, i) <= s.len(),
        next_newline(s, i) < s.len() ==> s[next_newline(s, i)] == '\n',
        forall|k: int| i <= k < next_newline(s, i) ==> s[k] != '\n',
    decreases s.len() - i,
{
    if i < s.len() && s[i] != '\n' {
        lemma_next_newline(s, i + 1);
    }
}

/// A line without the carriage return of its `\r\n` ending.
pub open spec fn strip_cr(line: Seq<char>) -> Seq<char> {
    if line.len() > 0 && line.last() == '\r' {
        line.drop_last()
    } else {
        line
    }
}

/// The lines of `s` from index `i` on, as `str::lines` yields them: split
/// after each `\n`, the `\n` and a `\r` right before it dropped, no empty
/// line after a final line feed.
pub open spec fn lines_from(s: Seq<char>, i: int) -> Seq<Seq<char>>
    decreases s.len() - i,
{
    if i < 0 || i >= s.len() {
        Seq::empty()
    } else {
        let j = next_newline(s, i);
        proof {
            lemma_next_newline(s, i);
        }
        if j < s.len() {
            seq![strip_cr(s.subrange(i, j))] + lines_from(s, j + 1)
        } else {
            seq![s.subrange(i, j)]
        }
    }
}

/// The lines of `s` (`str::lines`).
pub open spec fn lines_of(s: Seq<char>) -> Seq<Seq<char>> {
    lines_from(s, 0)
}

/// The views of a list of strings.
pub open spec fn string_views(v: Seq<String>) -> Seq<Seq<char>> {
    v.map_values(|x: String| x@)
}

/// Copies `s[lo..hi]` into a string.
fn substring(s: &Vec<char>, lo: usize, hi: usize) -> (r: String)
    requires
        lo <= hi <= s@.len(),
    ensures
        r@ == s@.subrange(lo as int, hi as int),
{
    let mut out: Vec<char> = Vec::new();
    let mut k: usize = lo;
    while k < hi
        invariant
            lo <= k <= hi <= s@.len(),
            out@ == s@.subrange(lo as int, k as int),
        decreases hi - k,
    {
        out.push(s[k]);
        k = k + 1;
        assert(out@ =~= s@.subrange(lo as int, k as int));
    }
    string_from_chars(&out)
}

/// The line of `s` that starts at `i`, and where the next one starts.
fn line_at(s: &Vec<char>, i: usize) -> (r: (String, usize))
    requires
        i < s@.len(),
    ensures
        lines_from(s@, i as int) == seq![r.0@] + lines_from(s@, r.1 as int),
        i < r.1 <= s@.len() + 1,
{
    proof {
        lemma_next_newline(s@, i as int);
    }
    let mut j: usize = i;
    while j < s.len() && s[j] != '\n'
        invariant
            i <= j <= s@.len(),
            next_newline(s@, i as int) == next_newline(s@, j as int),
        decreases s@.len() - j,
    {
        j = j + 1;
    }
    if j < s.len() {
        let end = if j > i && s[j - 1] == '\r' {
            j - 1
        } else {
            j
        };
        let line = substring(s, i, end);
        assert(strip_cr(s@.subrange(i as int, j as int)) =~= s@.subrange(i as int, end as int));
        (line, j + 1)
    } else {
        let line = substring(s, i, j);
        assert(lines_from(s@, j as int) =~= Seq::<Seq<char>>::empty());
        assert(seq![line@] + lines_from(s@, j as int) =~= seq![line@]);
        (line, j)
    }
}

/// The lines of `text` (`str::lines`), as strings.
pub fn split_lines(text: &str) -> (lines: Vec<String>)
    ensures
        string_views(lines@) == lines_of(text@),
{
    let s = chars_of(text);
    let mut out: Vec<String> = Vec::new();
    let mut i: usize = 0;
    while i < s.len()
        invariant
            s@ == text@,
            i <= s@.len() + 1,
            lines_of(text@) == string_views(out@) + lines_from(s@, i as int),
        decreases s@.len() + 1 - i,
    {
        let (line, next) = line_at(&s, i);
        let ghost before = string_views(out@);
        out.push(line);
        assert(string_views(out@) =~= before.push(line@));
        assert(before + (seq![line@] + lines_from(s@, next as int)) =~= before.push(line@)
            + lines_from(s@, next as int));
        i = next;
    }
    assert(lines_from(s@, i as int) =~= Seq::<Seq<char>>::empty());
    assert(string_views(out@) + Seq::<Seq<char>>::empty() =~= string_views(out@));
    out
}

/// The working directory `lsof -F n` reports: the rest of the first line
/// that starts with `n`.
pub open spec fn lsof_cwd_spec(lines: Seq<Seq<char>>) -> Option<Seq<char>>
    decreases lines.len(),
{
    if lines.len() == 0 {
        None
    } else if lines[0].len() > 0 && lines[0][0] == 'n' {
        Some(lines[0].drop_first())
    } else {
        lsof_cwd_spec(lines.drop_first())
    }
}

/// The working directory in the output of `lsof -p PID -a -d cwd -F n`.
pub fn lsof_cwd(output: &str) -> (cwd: Option<String>)
    ensures
        cwd.deep_view() == lsof_cwd_spec(lines_of(output@)),
{
    let lines = split_lines(output);
    let mut i: usize = 0;
    assert(string_views(lines@).skip(0) =~= string_views(lines@));
    while i < lines.len()
        invariant
            i <= lines@.len(),
            string_views(lines@) == lines_of(output@),
            lsof_cwd_spec(lines_of(output@)) == lsof_cwd_spec(string_views(lines@).skip(i as int)),
        decreases lines@.len() - i,
    {
        let ghost rest = string_views(lines@).skip(i as int);
        assert(rest[0] == lines@[i as int]@);
        assert(rest.drop_first() =~= string_views(lines@).skip(i + 1));
        let cs = chars_of(lines[i].as_str());
        if cs.len() > 0 && cs[0] == 'n' {
            let value = substring(&cs, 1, cs.len());
            assert(cs@.subrange(1, cs@.len() as int) =~= cs@.drop_first());
            return Some(value);
        }
        i = i + 1;
    }
    None
}

/// `s` without leading and trailing white space (`str::trim`).
pub open spec fn trim_spec(s: Seq<char>) -> Seq<char> {
    s.subrange(trim_start_index(s, 0), trim_end_index(s, s.len() as int, trim_start_index(s, 0)))
}

/// The index of the first non-white-space character of `s` at or after
/// `i`, or the length of `s`.
pub open spec fn trim_start_index(s: Seq<char>, i: int) -> int
    decreases s.len() - i,
{
    if i >= s.len() {
        s.len() as int
    } else if is_white_space(s[i]) {
        trim_start_index(s, i + 1)
    } else {
        i
    }
}

/// The end of `s[lo..j]` once its trailing white space is dropped.
pub open spec fn trim_end_index(s: Seq<char>, j: int, lo: int) -> int
    decreases j - lo,
{
    if j <= lo {
        lo
    } else if is_white_space(s[j - 1]) {
        trim_end_index(s, j - 1, lo)
    } else {
        j
    }
}

/// The trimming indices stay in order and in range.
proof fn lemma_trim_indices(s: Seq<char>, i: int, j: int, lo: int)
    requires
        0 <= i <= s.len(),
        0 <= lo <= j <= s.len(),
    ensures
        i <= trim_start_index(s, i) <= s.len(),
        lo <= trim_end_index(s, j, lo) <= j,
    decreases s.len() - i + j - lo,
{
    if i < s.len() && is_white_space(s[i]) {
        lemma_trim_indices(s, i + 1, j, lo);
    }
    if j > lo && is_white_space(s[j - 1]) {
        lemma_trim_indices(s, i, j - 1, lo);
    }
}

/// `s` without leading and trailing white space.
pub fn trim(s: &Vec<char>) -> (r: Vec<char>)
    ensures
        r@ == trim_spec(s@),
{
    let n = s.len();
    let mut lo: usize = 0;
    let mut more = lo < s.len() && char_is_whitespace(s[lo]);
    while more
        invariant
            n == s@.len(),
            lo <= s@.len(),
            more == (lo < s@.len() && is_white_space(s@[lo as int])),
            trim_start_index(s@, 0) == trim_start_index(s@, lo as int),
        decreases s@.len() - lo,
    {
        lo = lo + 1;
        more = lo < s.len() && char_is_whitespace(s[lo]);
    }
    let mut hi: usize = s.len();
    let mut more = hi > lo && char_is_whitespace(s[hi - 1]);
    while more
        invariant
            lo <= hi <= s@.len(),
            more == (hi > lo && is_white_space(s@[hi - 1])),
            trim_start_index(s@, 0) == lo,
            trim_end_index(s@, s@.len() as int, lo as int) == trim_end_index(s@, hi as int, lo as int),
        decreases hi - lo,
    {
        hi = hi - 1;
        more = hi > lo && char_is_whitespace(s[hi - 1]);
    }
    let mut out: Vec<char> = Vec::new();
    let mut k: usize = lo;
    while k < hi
        invariant
            lo <= k <= hi <= s@.len(),
            out@ == s@.subrange(lo as int, k as int),
        decreases hi - k,
    {
        out.push(s[k]);
        k = k + 1;
        assert(out@ =~= s@.subrange(lo as int, k as int));
    }
    out
}

/// The number a string of decimal digits spells.
pub open spec fn digits_value(s: Seq<char>) -> nat
    decreases s.len(),
{
    if s.len() == 0 {
        0
    } else {
        digits_value(s.drop_last()) * 10 + ((s.last() as u32) - ('0' as u32)) as nat
    }
}

/// Every character of `s` is an ASCII digit.
pub open spec fn all_digits(s: Seq<char>) -> bool {
    forall|k: int| 0 <= k < s.len() ==> '0' <= #[trigger] s[k] <= '9'
}

/// What `u32::from_str` gives for `s`: an optional `+`, then at least one
/// digit and nothing else, of a value that fits.
pub open spec fn parse_u32_spec(s: Seq<char>) -> Option<u32> {
    let d = if s.len() > 0 && s[0] == '+' {
        s.drop_first()
    } else {
        s
    };
    if d.len() > 0 && all_digits(d) && digits_value(d) <= u32::MAX {
        Some(digits_value(d) as u32)
    } else {
        None
    }
}

/// Parses a decimal `u32` as `u32::from_str` does.
pub fn parse_u32(s: &Vec<char>) -> (r: Option<u32>)
    ensures
        r == parse_u32_spec(s@),
{
    let start: usize = if s.len() > 0 && s[0] == '+' {
        1
    } else {
        0
    };
    let ghost d = if s@.len() > 0 && s@[0] == '+' {
        s@.drop_first()
    } else {
        s@
    };
    assert(d =~= s@.skip(start as int));
    assert(parse_u32_spec(s@) == if d.len() > 0 && all_digits(d) && digits_value(d) <= u32::MAX {
        Some(digits_value(d) as u32)
    } else {
        None
    });
    if start >= s.len() {
        return None;
    }
    let mut value: u32 = 0;
    let mut i: usize = start;
    while i < s.len()
        invariant
            start <= i <= s@.len(),
            start < s@.len(),
            d == s@.skip(start as int),
            parse_u32_spec(s@) == if d.len() > 0 && all_digits(d) && digits_value(d) <= u32::MAX {
                Some(digits_value(d) as u32)
            } else {
                None
            },
            all_digits(s@.subrange(start as int, i as int)),
            value == digits_value(s@.subrange(start as int, i as int)),
        decreases s@.len() - i,
    {
        let c = s[i];
        let ghost prefix = s@.subrange(start as int, i + 1);
        assert(prefix.drop_last() =~= s@.subrange(start as int, i as int));
        if !('0' <= c && c <= '9') {
            assert(parse_u32_spec(s@) is None) by {
                assert(d[i - start] == c);
                assert(!('0' <= d[i - start] <= '9'));
                assert(!all_digits(d));
            }
            return None;
        }
        let digit = (c as u32) - ('0' as u32);
        let next: u64 = (value as u64) * 10 + (digit as u64);
        if next > 0xffff_ffff {
            assert(parse_u32_spec(s@) is None) by {
                assert(prefix.last() == c);
                assert(digits_value(prefix) == value * 10 + digit);
                if all_digits(d) {
                    lemma_digits_value_grows(d, i + 1 - start);
                    assert(d.take(i + 1 - start) =~= prefix);
                    assert(digits_value(d) > u32::MAX);
                }
            }
            return None;
        }
        value = next as u32;
        i = i + 1;
    }
    assert(s@.subrange(start as int, s@.len() as int) =~= d);
    Some(value)
}

/// A longer all-digit prefix spells at least as large a number.
proof fn lemma_digits_value_grows(s: Seq<char>, k: int)
    requires
        0 <= k <= s.len(),
    ensures
        all_digits(s) ==> digits_value(s.take(k)) <= digits_value(s),
    decreases s.len() - k,
{
    if k < s.len() {
        lemma_digits_value_grows(s, k + 1);
        assert(s.take(k + 1).drop_last() =~= s.take(k));
    } else {
        assert(s.take(k) =~= s);
    }
}

/// The process ids `pgrep -P` lists: every line that, trimmed, is a
/// decimal `u32`, in order.
pub open spec fn pids_spec(lines: Seq<Seq<char>>) -> Seq<u32>
    decreases lines.len(),
{
    if lines.len() == 0 {
        Seq::empty()
    } else {
        let rest = pids_spec(lines.drop_last());
        match parse_u32_spec(trim_spec(lines.last())) {
            Some(p) => rest.push(p),
            None => rest,
        }
    }
}

/// The child process ids in the output of `pgrep -P PID`.
pub fn child_pids(output: &str) -> (pids: Vec<u32>)
    ensures
        pids@ == pids_spec(lines_of(output@)),
{
    let lines = split_lines(output);
    let mut out: Vec<u32> = Vec::new();
    let mut i: usize = 0;
    while i < lines.len()
        invariant
            i <= lines@.len(),
            string_views(lines@) == lines_of(output@),
            out@ == pids_spec(string_views(lines@).take(i as int)),
        decreases lines@.len() - i,
    {
        let ghost taken = string_views(lines@).take(i + 1);
        assert(taken.drop_last() =~= string_views(lines@).take(i as int));
        assert(taken.last() == lines@[i as int]@);
        let cs = chars_of(lines[i].as_str());
        let t = trim(&cs);
        match parse_u32(&t) {
            Some(p) => out.push(p),
            None => {},
        }
        i = i + 1;
    }
    assert(string_views(lines@).take(lines@.len() as int) =~= string_views(lines@));
    out
}

/// The first white-space-separated word of `s` (what
/// `split_whitespace().next()` gives), if it has one.
pub open spec fn first_word(s: Seq<char>) -> Option<Seq<char>> {
    let lo = trim_start_index(s, 0);
    if lo >= s.len() {
        None
    } else {
        Some(s.subrange(lo, word_end(s, lo)))
    }
}

/// Where the word starting at `i` ends: the next white space, or the end.
pub open spec fn word_end(s: Seq<char>, i: int) -> int
    decreases s.len() - i,
{
    if i >= s.len() {
        s.len() as int
    } else if is_white_space(s[i]) {
        i
    } else {
        word_end(s, i + 1)
    }
}

/// The session socket `screen -ls` lists for session `name`: the first word
/// of the first line whose first word ends with `.` and `name`.
pub open spec fn screen_socket_spec(lines: Seq<Seq<char>>, name: Seq<char>) -> Option<Seq<char>>
    decreases lines.len(),
{
    if lines.len() == 0 {
        None
    } else {
        match first_word(lines[0]) {
            Some(w) => if w.len() >= name.len() + 1 && w.skip(w.len() - name.len() - 1) == seq!['.']
                + name {
                Some(w)
            } else {
                screen_socket_spec(lines.drop_first(), name)
            },
            None => screen_socket_spec(lines.drop_first(), name),
        }
    }
}

/// The first word of `s`, if it has one.
fn word_of(s: &Vec<char>) -> (w: Option<Vec<char>>)
    ensures
        w.deep_view() == first_word(s@),
        w matches Some(x) ==> x@ == first_word(s@)->0,
{
    let n = s.len();
    let mut lo: usize = 0;
    let mut more = lo < s.len() && char_is_whitespace(s[lo]);
    while more
        invariant
            n == s@.len(),
            lo <= s@.len(),
            more == (lo < s@.len() && is_white_space(s@[lo as int])),
            trim_start_index(s@, 0) == trim_start_index(s@, lo as int),
        decreases s@.len() - lo,
    {
        lo = lo + 1;
        more = lo < s.len() && char_is_whitespace(s[lo]);
    }
    if lo >= s.len() {
        return None;
    }
    let mut hi: usize = lo;
    let mut more = hi < s.len() && !char_is_whitespace(s[hi]);
    while more
        invariant
            n == s@.len(),
            lo <= hi <= s@.len(),
            more == (hi < s@.len() && !is_white_space(s@[hi as int])),
            word_end(s@, lo as int) == word_end(s@, hi as int),
        decreases s@.len() - hi,
    {
        hi = hi + 1;
        more = hi < s.len() && !char_is_whitespace(s[hi]);
    }
    let mut out: Vec<char> = Vec::new();
    let mut k: usize = lo;
    while k < hi
        invariant
            lo <= k <= hi <= s@.len(),
            out@ == s@.subrange(lo as int, k as int),
        decreases hi - k,
    {
        out.push(s[k]);
        k = k + 1;
        assert(out@ =~= s@.subrange(lo as int, k as int));
    }
    Some(out)
}

/// Whether `w` ends with `.` and then `name`.
fn ends_with_dot_name(w: &Vec<char>, name: &Vec<char>) -> (r: bool)
    ensures
        r == (w@.len() >= name@.len() + 1 && w@.skip(w@.len() - name@.len() - 1) == seq!['.']
            + name@),
{
    let wl = w.len();
    if wl == 0 || wl - 1 < name.len() {
        return false;
    }
    let off = wl - name.len() - 1;
    let ghost target = seq!['.'] + name@;
    if w[off] != '.' {
        assert(w@.skip(off as int)[0] != target[0]);
        return false;
    }
    let mut k: usize = 0;
    while k < name.len()
        invariant
            wl == w@.len(),
            k <= name@.len(),
            off + 1 + name@.len() == w@.len(),
            w@[off as int] == '.',
            target == seq!['.'] + name@,
            forall|j: int| 0 <= j < k ==> w@[off + 1 + j] == name@[j],
        decreases name@.len() - k,
    {
        if w[off + 1 + k] != name[k] {
            assert(w@.skip(off as int)[k + 1] != target[k + 1]);
            return false;
        }
        k = k + 1;
    }
    assert(w@.skip(off as int) =~= target);
    true
}

/// The socket of session `name` in the output of `screen -ls`.
pub fn screen_socket(listing: &str, name: &str) -> (socket: Option<String>)
    ensures
        socket.deep_view() == screen_socket_spec(lines_of(listing@), name@),
{
    let lines = split_lines(listing);
    let name_chars = chars_of(name);
    let mut i: usize = 0;
    assert(string_views(lines@).skip(0) =~= string_views(lines@));
    while i < lines.len()
        invariant
            i <= lines@.len(),
            name_chars@ == name@,
            string_views(lines@) == lines_of(listing@),
            screen_socket_spec(lines_of(listing@), name@) == screen_socket_spec(
                string_views(lines@).skip(i as int),
                name@,
            ),
        decreases lines@.len() - i,
    {
        let ghost rest = string_views(lines@).skip(i as int);
        assert(rest[0] == lines@[i as int]@);
        assert(rest.drop_first() =~= string_views(lines@).skip(i + 1));
        let cs = chars_of(lines[i].as_str());
        match word_of(&cs) {
            Some(w) => {
                if ends_with_dot_name(&w, &name_chars) {
                    return Some(string_from_chars(&w));
                }
            },
            None => {},
        }
        i = i + 1;
    }
    None
}

/// The branch `git branch --show-current` printed: its output trimmed.
pub fn current_branch(output: &str) -> (branch: String)
    ensures
        branch@ == trim_spec(output@),
{
    let cs = chars_of(output);
    string_from_chars(&trim(&cs))
}

} // verus!
