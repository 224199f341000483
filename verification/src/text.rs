//! Text helpers: decimal numbers and the std string operations the
//! library needs, which vstd leaves without a specification.

use vstd::prelude::*;

verus! {

/// The character of a decimal digit `d` (0..=9).
pub open spec fn digit_char(d: nat) -> char {
    (d + 48) as char
}

/// The decimal representation of `n`, without leading zeros.
pub open spec fn decimal_digits(n: nat) -> Seq<char>
    decreases n,
{
    if n < 10 {
        seq![digit_char(n)]
    } else {
        decimal_digits(n / 10).push(digit_char(n % 10))
    }
}

/// The character of the digit `d`.
fn digit_of(d: usize) -> (c: char)
    requires
        d < 10,
    ensures
        c == digit_char(d as nat),
{
    ((d as u8) + 48) as char
}

/// The decimal digits of `n`, without leading zeros.
pub fn decimal_chars(n: usize) -> (r: Vec<char>)
    ensures
        r@ == decimal_digits(n as nat),
    decreases n,
{
    let d = digit_of(n % 10);
    if n < 10 {
        vec![d]
    } else {
        let mut v = decimal_chars(n / 10);
        v.push(d);
        v
    }
}

/// `base`, a space, and `n` in decimal without leading zeros: the name
/// `"{base} {n}"`.
pub fn numbered_name(base: &str, n: usize) -> (r: String)
    ensures
        r@ == base@ + seq![' '] + decimal_digits(n as nat),
{
    proof {
        reveal_strlit(" ");
    }
    let mut r = String::from_str(base);
    r.append(" ");
    let digits = string_from_chars(&decimal_chars(n));
    r.append(digits.as_str());
    r
}

/// A `String` holding `chars`, in order (`Iterator::collect`).
#[verifier::external_body]
pub fn string_from_chars(chars: &Vec<char>) -> (r: String)
    ensures
        r@ == chars@,
{
    chars.iter().collect()
}

/// The characters of `s`, in order (`Iterator::collect` over `str::chars`).
#[verifier::external_body]
pub fn chars_of(s: &str) -> (r: Vec<char>)
    ensures
        r@ == s@,
{
    s.chars().collect()
}


/// What `char::to_uppercase` yields for `c`: its Unicode uppercase
/// mapping, one or more characters.
pub uninterp spec fn uppercase_of(c: char) -> Seq<char>;

/// The uppercase mapping of `c` (`char::to_uppercase`, collected). The
/// mapping of `a`..=`z` is the ASCII capital; of other characters only
/// that it is a function of the character is stated.
#[verifier::external_body]
pub fn char_to_uppercase(c: char) -> (r: Vec<char>)
    ensures
        r@ == uppercase_of(c),
        'a' <= c <= 'z' ==> r@ == seq![((c as u32) - 32) as char],
{
    c.to_uppercase().collect()
}

/// `a == b` for string slices (`<str as PartialEq>::eq`): equal exactly
/// when they hold the same characters.
#[verifier::external_body]
pub fn str_eq(a: &str, b: &str) -> (r: bool)
    ensures
        r == (a@ == b@),
{
    a == b
}

/// How many bytes `c` takes in UTF-8.
pub open spec fn utf8_width(c: char) -> nat {
    if (c as u32) < 0x80 {
        1
    } else if (c as u32) < 0x800 {
        2
    } else if (c as u32) < 0x10000 {
        3
    } else {
        4
    }
}

/// How many 16-bit units `c` takes in UTF-16.
pub open spec fn utf16_width(c: char) -> nat {
    if (c as u32) < 0x10000 {
        1
    } else {
        2
    }
}

/// The length of `s` in UTF-8 bytes.
pub open spec fn utf8_len(s: Seq<char>) -> nat
    decreases s.len(),
{
    if s.len() == 0 {
        0
    } else {
        utf8_len(s.drop_last()) + utf8_width(s.last())
    }
}

/// The length of `s` in UTF-16 units.
pub open spec fn utf16_len(s: Seq<char>) -> nat
    decreases s.len(),
{
    if s.len() == 0 {
        0
    } else {
        utf16_len(s.drop_last()) + utf16_width(s.last())
    }
}

/// The UTF-8 length of a prefix grows by the width of the next character.
pub proof fn lemma_prefix_lens(s: Seq<char>, k: int)
    requires
        0 <= k < s.len(),
    ensures
        utf8_len(s.take(k + 1)) == utf8_len(s.take(k)) + utf8_width(s[k]),
        utf16_len(s.take(k + 1)) == utf16_len(s.take(k)) + utf16_width(s[k]),
{
    assert(s.take(k + 1).drop_last() =~= s.take(k));
}

/// No text is longer in UTF-16 units than in UTF-8 bytes.
pub proof fn lemma_utf16_within_utf8(t: Seq<char>)
    ensures
        utf16_len(t) <= utf8_len(t),
    decreases t.len(),
{
    if t.len() > 0 {
        lemma_utf16_within_utf8(t.drop_last());
    }
}

/// No prefix is longer in UTF-16 units than in UTF-8 bytes, nor longer in
/// UTF-8 bytes than the whole text.
pub proof fn lemma_prefix_bounds(s: Seq<char>, k: int)
    requires
        0 <= k <= s.len(),
    ensures
        utf16_len(s.take(k)) <= utf8_len(s.take(k)),
        utf8_len(s.take(k)) <= utf8_len(s),
    decreases s.len() - k,
{
    lemma_utf16_within_utf8(s.take(k));
    if k == s.len() {
        assert(s.take(k) =~= s);
    } else {
        lemma_prefix_lens(s, k);
        lemma_prefix_bounds(s, k + 1);
    }
}

/// The byte offset `utf16_to_byte_offset` finds once the first `k`
/// characters have fallen short of `offset` units: the end of the first
/// longer prefix reaching it, else the end of the text.
pub open spec fn byte_offset_from(s: Seq<char>, offset: nat, k: nat) -> nat
    decreases s.len() - k,
{
    if k >= s.len() {
        utf8_len(s)
    } else if offset <= utf16_len(s.take((k + 1) as int)) {
        utf8_len(s.take((k + 1) as int))
    } else {
        byte_offset_from(s, offset, k + 1)
    }
}

/// The byte offset of UTF-16 offset `offset` in `s`: 0 for 0, else the
/// end of the shortest prefix that reaches `offset` units (an offset inside
/// a surrogate pair rounds up past the character), else the end of `s`.
pub open spec fn utf16_to_byte_offset_spec(s: Seq<char>, offset: nat) -> nat {
    if offset == 0 {
        0
    } else {
        byte_offset_from(s, offset, 0)
    }
}

/// The UTF-8 width of `c`.
fn char_utf8_width(c: char) -> (w: usize)
    ensures
        w == utf8_width(c),
{
    let v = c as u32;
    if v < 0x80 {
        1
    } else if v < 0x800 {
        2
    } else if v < 0x10000 {
        3
    } else {
        4
    }
}

/// The UTF-16 width of `c`.
fn char_utf16_width(c: char) -> (w: usize)
    ensures
        w == utf16_width(c),
{
    if (c as u32) < 0x10000 {
        1
    } else {
        2
    }
}

/// The length of `text` in UTF-8 bytes.
pub fn utf8_len_of(text: &str) -> (n: usize)
    requires
        utf8_len(text@) <= usize::MAX,
    ensures
        n == utf8_len(text@),
{
    let s = chars_of(text);
    let mut n: usize = 0;
    let mut i: usize = 0;
    while i < s.len()
        invariant
            s@ == text@,
            i <= s@.len(),
            utf8_len(text@) <= usize::MAX,
            n == utf8_len(s@.take(i as int)),
        decreases s@.len() - i,
    {
        proof {
            lemma_prefix_lens(s@, i as int);
            lemma_prefix_bounds(s@, i + 1);
        }
        n = n + char_utf8_width(s[i]);
        i = i + 1;
    }
    assert(s@.take(s@.len() as int) =~= s@);
    n
}

/// The length of `text` in UTF-16 units.
pub fn utf16_len_of(text: &str) -> (n: usize)
    requires
        utf8_len(text@) <= usize::MAX,
    ensures
        n == utf16_len(text@),
{
    let s = chars_of(text);
    let mut n: usize = 0;
    let mut i: usize = 0;
    while i < s.len()
        invariant
            s@ == text@,
            i <= s@.len(),
            utf8_len(text@) <= usize::MAX,
            n == utf16_len(s@.take(i as int)),
        decreases s@.len() - i,
    {
        proof {
            lemma_prefix_lens(s@, i as int);
            lemma_prefix_bounds(s@, i + 1);
        }
        n = n + char_utf16_width(s[i]);
        i = i + 1;
    }
    assert(s@.take(s@.len() as int) =~= s@);
    n
}

/// The byte offset in `text` of UTF-16 offset `offset`; see
/// `utf16_to_byte_offset_spec`.
pub fn utf16_to_byte_offset(text: &str, offset: usize) -> (r: usize)
    requires
        utf8_len(text@) <= usize::MAX,
    ensures
        r == utf16_to_byte_offset_spec(text@, offset as nat),
{
    if offset == 0 {
        return 0;
    }
    let s = chars_of(text);
    let mut units: usize = 0;
    let mut bytes: usize = 0;
    let mut i: usize = 0;
    while i < s.len()
        invariant
            s@ == text@,
            i <= s@.len(),
            utf8_len(text@) <= usize::MAX,
            offset > 0,
            units == utf16_len(s@.take(i as int)),
            bytes == utf8_len(s@.take(i as int)),
            byte_offset_from(s@, offset as nat, 0) == byte_offset_from(s@, offset as nat, i as nat),
        decreases s@.len() - i,
    {
        proof {
            lemma_prefix_lens(s@, i as int);
            lemma_prefix_bounds(s@, i + 1);
        }
        units = units + char_utf16_width(s[i]);
        bytes = bytes + char_utf8_width(s[i]);
        if offset <= units {
            return bytes;
        }
        i = i + 1;
    }
    assert(s@.take(s@.len() as int) =~= s@);
    bytes
}

/// How many characters of `s` lie before UTF-16 offset `offset`, once the
/// first `k` have fallen short of it: the length of the first longer
/// prefix reaching it, else all of them.
pub open spec fn char_count_from(s: Seq<char>, offset: nat, k: nat) -> nat
    decreases s.len() - k,
{
    if k >= s.len() {
        s.len()
    } else if offset <= utf16_len(s.take((k + 1) as int)) {
        k + 1
    } else {
        char_count_from(s, offset, k + 1)
    }
}

/// How many characters lie before UTF-16 offset `offset` in `s`; the
/// byte offset `utf16_to_byte_offset` gives is the UTF-8 length of them.
pub open spec fn utf16_to_char_count(s: Seq<char>, offset: nat) -> nat {
    if offset == 0 {
        0
    } else {
        char_count_from(s, offset, 0)
    }
}

/// The byte offset of a UTF-16 offset (from its first `k` characters on)
/// is the UTF-8 length of the characters before it.
proof fn lemma_byte_offset_is_prefix_len(s: Seq<char>, offset: nat, k: nat)
    requires
        k <= s.len(),
    ensures
        byte_offset_from(s, offset, k) == utf8_len(s.take(char_count_from(s, offset, k) as int)),
        k <= char_count_from(s, offset, k) <= s.len(),
    decreases s.len() - k,
{
    if k >= s.len() {
        assert(s.take(s.len() as int) =~= s);
    } else if offset <= utf16_len(s.take((k + 1) as int)) {
    } else {
        lemma_byte_offset_is_prefix_len(s, offset, k + 1);
    }
}

/// The byte offset `utf16_to_byte_offset` gives for a UTF-16 offset is
/// the UTF-8 length of the characters `ime_text_for_range` counts before
/// that offset: both cut the text at the same character boundary.
pub proof fn law_byte_offset_is_char_prefix(s: Seq<char>, offset: nat)
    ensures
        utf16_to_byte_offset_spec(s, offset) == utf8_len(s.take(utf16_to_char_count(s, offset) as int)),
        utf16_to_char_count(s, offset) <= s.len(),
{
    if offset == 0 {
        assert(s.take(0).len() == 0);
    } else {
        lemma_byte_offset_is_prefix_len(s, offset, 0);
    }
}

/// The number of characters before UTF-16 offset `offset` of `s`.
fn char_count_at(s: &Vec<char>, offset: usize) -> (n: usize)
    requires
        utf8_len(s@) <= usize::MAX,
    ensures
        n == utf16_to_char_count(s@, offset as nat),
        n <= s@.len(),
{
    if offset == 0 {
        return 0;
    }
    let mut units: usize = 0;
    let mut i: usize = 0;
    while i < s.len()
        invariant
            i <= s@.len(),
            utf8_len(s@) <= usize::MAX,
            offset > 0,
            units == utf16_len(s@.take(i as int)),
            char_count_from(s@, offset as nat, 0) == char_count_from(s@, offset as nat, i as nat),
        decreases s@.len() - i,
    {
        proof {
            lemma_prefix_lens(s@, i as int);
            lemma_prefix_bounds(s@, i + 1);
        }
        units = units + char_utf16_width(s[i]);
        if offset <= units {
            return i + 1;
        }
        i = i + 1;
    }
    i
}

/// What an input method gets back for the UTF-16 range `start..end` of
/// the text being composed: nothing while nothing is composed; else the
/// range clamped to the text's UTF-16 length, and the characters between
/// the two clamped offsets.
pub open spec fn ime_range_spec(s: Seq<char>, start: nat, end: nat) -> Option<(Seq<char>, nat, nat)> {
    if s.len() == 0 {
        None
    } else {
        let len = utf16_len(s);
        let a = if start <= len {
            start
        } else {
            len
        };
        let b = if end <= len {
            end
        } else {
            len
        };
        Some((s.subrange(utf16_to_char_count(s, a) as int, utf16_to_char_count(s, b) as int), a, b))
    }
}

/// The text of the UTF-16 range `start..end` of the text being composed,
/// with the range as clamped; see `ime_range_spec`. The start must not
/// fall after the end once both are clamped.
pub fn ime_text_for_range(text: &str, start: usize, end: usize) -> (r: Option<(String, usize, usize)>)
    requires
        utf8_len(text@) <= usize::MAX,
        ({
            let len = utf16_len(text@);
            utf16_to_char_count(text@, if start <= len { start as nat } else { len })
                <= utf16_to_char_count(text@, if end <= len { end as nat } else { len })
        }),
    ensures
        match ime_range_spec(text@, start as nat, end as nat) {
            Some((t, a, b)) => r matches Some((x, p, q)) && x@ == t && p == a && q == b,
            None => r is None,
        },
{
    let s = chars_of(text);
    if s.len() == 0 {
        return None;
    }
    let len = utf16_len_of(text);
    let a = if start <= len {
        start
    } else {
        len
    };
    let b = if end <= len {
        end
    } else {
        len
    };
    let lo = char_count_at(&s, a);
    let hi = char_count_at(&s, b);
    let mut out: Vec<char> = Vec::new();
    let mut k: usize = lo;
    while k < hi
        invariant
            lo <= k <= hi <= s@.len(),
            out@ == s@.subrange(lo as int, k as int),
        decreases hi - k,
    {
        out.push(s[k]);
        k = k + 1;
        assert(out@ =~= s@.subrange(lo as int, k as int));
    }
    Some((string_from_chars(&out), a, b))
}

} // verus!
