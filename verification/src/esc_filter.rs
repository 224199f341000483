//! Scrollback hygiene on the PTY byte stream.
//!
//! `AltScreenFilter` removes alternate-screen switching sequences
//! (`CSI ?47h/l`, `?1047h/l`, `?1049h/l`) and reports where the scrollback
//! should be cleared: after an explicit `CSI 3J` / `CSI ?3J`, or after the
//! classic `cursor home` + `CSI 2J` pair that `clear` sends on macOS.

use vstd::prelude::*;

verus! {

/// The escape byte that starts every control sequence.
pub const ESC: u8 = 0x1b;

// ---------------------------------------------------------------------
// The grammar of the CSI sequences the filter tracks
// ---------------------------------------------------------------------

/// Digits and `;` make up the parameter bytes the filter understands.
pub open spec fn is_param_byte(b: u8) -> bool {
    (0x30 <= b <= 0x39) || b == 0x3b
}

/// Index of the first byte at or after `i` that is not a parameter byte
/// (`d.len()` when there is none).
pub open spec fn skip_params(d: Seq<u8>, i: int) -> int
    decreases d.len() - i,
{
    if 0 <= i < d.len() && is_param_byte(d[i]) {
        skip_params(d, i + 1)
    } else {
        i
    }
}

/// Splits a parameter string on `;` the way `slice::split` does: `n`
/// semicolons give `n + 1` (possibly empty) parameters.
pub open spec fn split_params(s: Seq<u8>) -> Seq<Seq<u8>>
    decreases s.len(),
{
    if s.len() == 0 {
        seq![Seq::<u8>::empty()]
    } else {
        let rest = split_params(s.drop_last());
        if s.last() == 0x3b {
            rest.push(Seq::<u8>::empty())
        } else {
            rest.update(rest.len() - 1, rest.last().push(s.last()))
        }
    }
}

/// The non-empty parameters, in order.
pub open spec fn non_empty_params(ps: Seq<Seq<u8>>) -> Seq<Seq<u8>>
    decreases ps.len(),
{
    if ps.len() == 0 {
        ps
    } else if ps.last().len() > 0 {
        non_empty_params(ps.drop_last()).push(ps.last())
    } else {
        non_empty_params(ps.drop_last())
    }
}

/// Parameter `47`, `1047` or `1049`: an alternate-screen switch.
pub open spec fn is_alt_screen_param(p: Seq<u8>) -> bool {
    p == seq![0x34u8, 0x37u8] || p == seq![0x31u8, 0x30u8, 0x34u8, 0x37u8]
        || p == seq![0x31u8, 0x30u8, 0x34u8, 0x39u8]
}

/// Where the parameters of the CSI sequence at the start of `d` begin.
pub open spec fn params_start(d: Seq<u8>) -> int {
    if d.len() > 2 && d[2] == 0x3f { 3 } else { 2 }
}

/// Summary of one complete CSI sequence at the start of a byte string.
#[derive(Clone, Copy, PartialEq, Eq, Debug)]
pub struct CsiScan {
    /// False for an alternate-screen switch, which the filter drops.
    pub keep: bool,
    /// Sequence is `CSI 3J` / `CSI ?3J` (clear scrollback).
    pub clear_scrollback: bool,
    /// Sequence is `CSI H`-style cursor home.
    pub cup_home: bool,
    /// Sequence is `CSI 2J` / `CSI J`.
    pub erase_all: bool,
    /// Length of the sequence in bytes.
    pub len: usize,
}

/// What `scan_csi` decides for the bytes `d` (which start with ESC):
/// `Ok` for a complete CSI sequence, `Err(false)` when the sequence is
/// still incomplete (a lone ESC included: the next byte may be `[`),
/// `Err(true)` when `d` does not start a CSI sequence the filter tracks
/// (only the ESC byte is consumed).
#[verifier::opaque]
pub open spec fn scan_spec(d: Seq<u8>) -> Result<CsiScan, bool> {
    if d.len() < 2 {
        Err(false)
    } else if d[1] != 0x5b {
        Err(true)
    } else {
        let start = params_start(d);
        let end = skip_params(d, start);
        if end >= d.len() {
            Err(false)
        } else if !(0x40 <= d[end] <= 0x7e) {
            Err(true)
        } else {
            let f = d[end];
            let ps = split_params(d.subrange(start, end));
            let ne = non_empty_params(ps);
            let alt_switch = start == 3 && (f == 0x68 || f == 0x6c)
                && exists|k: int| 0 <= k < ps.len() && is_alt_screen_param(#[trigger] ps[k]);
            Ok(CsiScan {
                keep: !alt_switch,
                clear_scrollback: f == 0x4a
                    && exists|k: int| 0 <= k < ps.len() && #[trigger] ps[k] == seq![0x33u8],
                cup_home: f == 0x48 && (ne == Seq::<Seq<u8>>::empty() || ne == seq![seq![0x31u8]]
                    || ne == seq![seq![0x31u8], seq![0x31u8]]),
                erase_all: f == 0x4a && forall|k: int|
                    0 <= k < ps.len() ==> (#[trigger] ps[k]).len() == 0 || ps[k] == seq![0x32u8],
                len: (end + 1) as usize,
            })
        }
    }
}

// ---------------------------------------------------------------------
// The filter as a stream transformer
// ---------------------------------------------------------------------

/// One item of the filter's output stream: a byte that goes on to the
/// emulator, or the point at which the scrollback is to be cleared.
#[derive(Clone, Copy, PartialEq, Eq, Debug)]
pub enum FilterEvent {
    Byte(u8),
    ClearScrollback,
}

/// The bytes of `s` as output events.
pub open spec fn byte_events(s: Seq<u8>) -> Seq<FilterEvent> {
    Seq::new(s.len(), |k: int| FilterEvent::Byte(s[k]))
}

/// The events a segment list stands for: each segment's bytes, followed by
/// a clear when its flag is set.
pub open spec fn segment_events(segs: Seq<(Vec<u8>, bool)>) -> Seq<FilterEvent>
    decreases segs.len(),
{
    if segs.len() == 0 {
        Seq::empty()
    } else {
        segment_events(segs.drop_last()) + byte_events(segs.last().0@) + (if segs.last().1 {
            seq![FilterEvent::ClearScrollback]
        } else {
            Seq::empty()
        })
    }
}

/// Runs the filter over `d` with the given cursor-home memory. Returns the
/// output events, the bytes held back as an incomplete sequence, and the
/// new cursor-home memory.
#[verifier::opaque]
pub open spec fn run_filter(d: Seq<u8>, saw_home: bool) -> (Seq<FilterEvent>, Seq<u8>, bool)
    decreases d.len(),
{
    if d.len() == 0 {
        (Seq::empty(), Seq::empty(), saw_home)
    } else if d[0] != ESC {
        let r = run_filter(d.drop_first(), false);
        (seq![FilterEvent::Byte(d[0])] + r.0, r.1, r.2)
    } else {
        match scan_spec(d) {
            Ok(scan) => {
                if scan.len as int <= 0 || scan.len as int > d.len() {
                    (Seq::empty(), Seq::empty(), saw_home)  // never: a scan has a positive length within d

                } else if !scan.keep {
                    run_filter(d.subrange(scan.len as int, d.len() as int), false)
                } else {
                    let purge = scan.clear_scrollback || (scan.erase_all && saw_home);
                    let r = run_filter(d.subrange(scan.len as int, d.len() as int), scan.cup_home);
                    (byte_events(d.subrange(0, scan.len as int)) + (if purge {
                        seq![FilterEvent::ClearScrollback]
                    } else {
                        Seq::empty()
                    }) + r.0, r.1, r.2)
                }
            },
            Err(true) => {
                let r = run_filter(d.drop_first(), false);
                (seq![FilterEvent::Byte(ESC)] + r.0, r.1, r.2)
            },
            Err(false) => (Seq::empty(), d, saw_home),
        }
    }
}

proof fn lemma_run_empty(saw: bool)
    ensures
        run_filter(Seq::empty(), saw) == (Seq::<FilterEvent>::empty(), Seq::<u8>::empty(), saw),
{
    reveal(run_filter);
}

/// One step of the filter at a byte that passes through alone: a non-ESC
/// byte, or an ESC that starts no tracked sequence.
proof fn lemma_run_pass(d: Seq<u8>, saw: bool)
    requires
        d.len() > 0,
        d[0] != ESC || scan_spec(d) == Err::<CsiScan, bool>(true),
    ensures
        run_filter(d, saw) == (seq![FilterEvent::Byte(d[0])] + run_filter(d.drop_first(), false).0,
        run_filter(d.drop_first(), false).1, run_filter(d.drop_first(), false).2),
{
    reveal(run_filter);
}

/// One step of the filter at a complete sequence.
proof fn lemma_run_scan(d: Seq<u8>, saw: bool)
    requires
        d.len() > 0,
        d[0] == ESC,
        scan_spec(d) is Ok,
        d.len() <= usize::MAX,
    ensures
        ({
            let scan = scan_spec(d)->Ok_0;
            let tail = d.subrange(scan.len as int, d.len() as int);
            let purge = scan.clear_scrollback || (scan.erase_all && saw);
            if !scan.keep {
                run_filter(d, saw) == run_filter(tail, false)
            } else {
                run_filter(d, saw) == (byte_events(d.subrange(0, scan.len as int)) + (if purge {
                    seq![FilterEvent::ClearScrollback]
                } else {
                    Seq::empty()
                }) + run_filter(tail, scan.cup_home).0, run_filter(tail, scan.cup_home).1,
                run_filter(tail, scan.cup_home).2)
            }
        }),
{
    lemma_scan_len(d);
    reveal(run_filter);
}

/// The filter holds back an incomplete sequence whole.
proof fn lemma_run_hold(d: Seq<u8>, saw: bool)
    requires
        d.len() > 0,
        d[0] == ESC,
        scan_spec(d) == Err::<CsiScan, bool>(false),
    ensures
        run_filter(d, saw) == (Seq::<FilterEvent>::empty(), d, saw),
{
    reveal(run_filter);
}

// ---------------------------------------------------------------------
// Proofs about the grammar
// ---------------------------------------------------------------------

proof fn lemma_skip_params_bounds(d: Seq<u8>, i: int)
    requires
        0 <= i <= d.len(),
    ensures
        i <= skip_params(d, i) <= d.len(),
        forall|k: int| i <= k < skip_params(d, i) ==> is_param_byte(#[trigger] d[k]),
        skip_params(d, i) < d.len() ==> !is_param_byte(d[skip_params(d, i)]),
    decreases d.len() - i,
{
    if i < d.len() && is_param_byte(d[i]) {
        lemma_skip_params_bounds(d, i + 1);
    }
}

/// `skip_params` only looks at bytes before the index it returns.
proof fn lemma_skip_params_extend(d: Seq<u8>, e: Seq<u8>, i: int)
    requires
        0 <= i <= d.len(),
        skip_params(d, i) < d.len(),
    ensures
        skip_params(d + e, i) == skip_params(d, i),
    decreases d.len() - i,
{
    if i < d.len() && is_param_byte(d[i]) {
        lemma_skip_params_extend(d, e, i + 1);
    }
}

/// A scan that is not waiting for more bytes keeps its outcome whatever
/// follows.
proof fn lemma_scan_extend(d: Seq<u8>, e: Seq<u8>)
    requires
        scan_spec(d) != Err::<CsiScan, bool>(false),
    ensures
        scan_spec(d + e) == scan_spec(d),
{
    reveal(scan_spec);
    let de = d + e;
    assert(de[1] == d[1]);
    if d[1] == 0x5b {
        let start = params_start(d);
        if d.len() > 2 {
            assert(de[2] == d[2]);
        } else {
            assert(start == 2);
            lemma_skip_params_bounds(d, 2);
        }
        assert(params_start(de) == start);
        lemma_skip_params_bounds(d, start);
        lemma_skip_params_extend(d, e, start);
        let end = skip_params(d, start);
        assert(de[end] == d[end]);
        assert(de.subrange(start, end) =~= d.subrange(start, end));
    }
}

proof fn lemma_scan_len(d: Seq<u8>)
    requires
        scan_spec(d) is Ok,
        d.len() <= usize::MAX,
    ensures
        3 <= scan_spec(d)->Ok_0.len <= d.len(),
{
    reveal(scan_spec);
    let start = params_start(d);
    assert(2 <= start <= d.len());
    lemma_skip_params_bounds(d, start);
}

// ---------------------------------------------------------------------
// Executable scanning
// ---------------------------------------------------------------------

/// Which of the tracked literal parameters `d[lo..hi]` is.
struct ParamKind {
    alt_screen: bool,
    three: bool,
    two: bool,
    one: bool,
}

fn classify_param(d: &[u8], lo: usize, hi: usize) -> (k: ParamKind)
    requires
        lo <= hi <= d@.len(),
    ensures
        k.alt_screen == is_alt_screen_param(d@.subrange(lo as int, hi as int)),
        k.three == (d@.subrange(lo as int, hi as int) == seq![0x33u8]),
        k.two == (d@.subrange(lo as int, hi as int) == seq![0x32u8]),
        k.one == (d@.subrange(lo as int, hi as int) == seq![0x31u8]),
{
    let ghost p = d@.subrange(lo as int, hi as int);
    let n = hi - lo;
    let alt_screen = if n == 2 {
        d[lo] == 0x34 && d[lo + 1] == 0x37
    } else if n == 4 {
        d[lo] == 0x31 && d[lo + 1] == 0x30 && d[lo + 2] == 0x34 && (d[lo + 3] == 0x37 || d[lo
            + 3] == 0x39)
    } else {
        false
    };
    let three = n == 1 && d[lo] == 0x33;
    let two = n == 1 && d[lo] == 0x32;
    let one = n == 1 && d[lo] == 0x31;
    proof {
        let a = seq![0x34u8, 0x37u8];
        let b = seq![0x31u8, 0x30u8, 0x34u8, 0x37u8];
        let c = seq![0x31u8, 0x30u8, 0x34u8, 0x39u8];
        if n == 2 {
            assert(p[0] == d@[lo as int] && p[1] == d@[lo + 1]);
            if alt_screen {
                assert(p =~= a);
            } else {
                assert(p != a) by {
                    if p == a {
                        assert(p[0] == a[0] && p[1] == a[1]);
                    }
                }
            }
        } else if n == 4 {
            assert(p[0] == d@[lo as int] && p[1] == d@[lo + 1] && p[2] == d@[lo + 2] && p[3]
                == d@[lo + 3]);
            if alt_screen {
                assert(p =~= b || p =~= c);
            } else {
                assert(p != b && p != c) by {
                    if p == b {
                        assert(p[0] == b[0] && p[1] == b[1] && p[2] == b[2] && p[3] == b[3]);
                    }
                    if p == c {
                        assert(p[0] == c[0] && p[1] == c[1] && p[2] == c[2] && p[3] == c[3]);
                    }
                }
            }
        } else {
            assert(p.len() != a.len() && p.len() != b.len());
        }
        if n == 1 {
            assert(p[0] == d@[lo as int]);
            assert(three ==> p =~= seq![0x33u8]);
            assert(two ==> p =~= seq![0x32u8]);
            assert(one ==> p =~= seq![0x31u8]);
            assert(p == seq![0x33u8] ==> three) by {
                if p == seq![0x33u8] {
                    assert(p[0] == seq![0x33u8][0]);
                }
            }
            assert(p == seq![0x32u8] ==> two) by {
                if p == seq![0x32u8] {
                    assert(p[0] == seq![0x32u8][0]);
                }
            }
            assert(p == seq![0x31u8] ==> one) by {
                if p == seq![0x31u8] {
                    assert(p[0] == seq![0x31u8][0]);
                }
            }
        } else {
            assert(p.len() != seq![0x33u8].len());
        }
    }
    ParamKind { alt_screen, three, two, one }
}

/// The flags of the parameters seen so far in a scan.
pub open spec fn any_alt(ps: Seq<Seq<u8>>) -> bool {
    exists|k: int| 0 <= k < ps.len() && is_alt_screen_param(#[trigger] ps[k])
}

pub open spec fn any_three(ps: Seq<Seq<u8>>) -> bool {
    exists|k: int| 0 <= k < ps.len() && #[trigger] ps[k] == seq![0x33u8]
}

pub open spec fn all_empty_or_two(ps: Seq<Seq<u8>>) -> bool {
    forall|k: int| 0 <= k < ps.len() ==> (#[trigger] ps[k]).len() == 0 || ps[k] == seq![0x32u8]
}

pub open spec fn home_params(ne: Seq<Seq<u8>>) -> bool {
    ne == Seq::<Seq<u8>>::empty() || ne == seq![seq![0x31u8]] || ne == seq![
        seq![0x31u8],
        seq![0x31u8],
    ]
}

/// Non-empty parameters that are not all `1`, or more than two of them.
pub open spec fn all_ones(ne: Seq<Seq<u8>>) -> bool {
    forall|k: int| 0 <= k < ne.len() ==> #[trigger] ne[k] == seq![0x31u8]
}

proof fn lemma_home_params(ne: Seq<Seq<u8>>)
    ensures
        home_params(ne) <==> (ne.len() <= 2 && all_ones(ne)),
{
    let one = seq![0x31u8];
    if ne.len() <= 2 && all_ones(ne) {
        if ne.len() == 0 {
            assert(ne =~= Seq::<Seq<u8>>::empty());
        } else if ne.len() == 1 {
            assert(ne[0] == one);
            assert(ne =~= seq![one]);
        } else {
            assert(ne[0] == one && ne[1] == one);
            assert(ne =~= seq![one, one]);
        }
    }
    if ne == seq![one] {
        assert(ne[0] == one);
    }
    if ne == seq![one, one] {
        assert(ne[0] == one && ne[1] == one);
    }
}

proof fn lemma_push_piece(ps: Seq<Seq<u8>>, p: Seq<u8>)
    ensures
        any_alt(ps.push(p)) == (any_alt(ps) || is_alt_screen_param(p)),
        any_three(ps.push(p)) == (any_three(ps) || p == seq![0x33u8]),
        all_empty_or_two(ps.push(p)) == (all_empty_or_two(ps) && (p.len() == 0 || p == seq![
            0x32u8,
        ])),
        non_empty_params(ps.push(p)) == (if p.len() > 0 {
            non_empty_params(ps).push(p)
        } else {
            non_empty_params(ps)
        }),
{
    let q = ps.push(p);
    assert(q.drop_last() =~= ps);
    assert(q[ps.len() as int] == p);
    if any_alt(ps) {
        let k = choose|k: int| 0 <= k < ps.len() && is_alt_screen_param(#[trigger] ps[k]);
        assert(q[k] == ps[k]);
    }
    if any_alt(q) && !is_alt_screen_param(p) {
        let k = choose|k: int| 0 <= k < q.len() && is_alt_screen_param(#[trigger] q[k]);
        assert(ps[k] == q[k]);
    }
    if any_three(ps) {
        let k = choose|k: int| 0 <= k < ps.len() && #[trigger] ps[k] == seq![0x33u8];
        assert(q[k] == ps[k]);
    }
    if any_three(q) && p != seq![0x33u8] {
        let k = choose|k: int| 0 <= k < q.len() && #[trigger] q[k] == seq![0x33u8];
        assert(ps[k] == q[k]);
    }
    if all_empty_or_two(q) {
        assert forall|k: int| 0 <= k < ps.len() implies (#[trigger] ps[k]).len() == 0 || ps[k]
            == seq![0x32u8] by {
            assert(q[k] == ps[k]);
        }
    }
}

proof fn lemma_ones_push(ne: Seq<Seq<u8>>, p: Seq<u8>)
    ensures
        all_ones(ne.push(p)) == (all_ones(ne) && p == seq![0x31u8]),
{
    let q = ne.push(p);
    assert(q[ne.len() as int] == p);
    if all_ones(q) {
        assert forall|k: int| 0 <= k < ne.len() implies #[trigger] ne[k] == seq![0x31u8] by {
            assert(q[k] == ne[k]);
        }
    }
}

proof fn lemma_split_push(s: Seq<u8>, b: u8)
    ensures
        b == 0x3b ==> split_params(s.push(b)) == split_params(s).push(Seq::<u8>::empty()),
        b != 0x3b ==> split_params(s.push(b)) == split_params(s).update(
            split_params(s).len() - 1,
            split_params(s).last().push(b),
        ),
{
    assert(s.push(b).drop_last() =~= s);
}

/// The pieces of the parameter string seen so far: completed pieces plus
/// the one still being read, which spans `lo..j`.
spec fn pieces_invariant(d: Seq<u8>, start: int, lo: int, j: int, done: Seq<Seq<u8>>) -> bool {
    &&& start <= lo <= j <= d.len()
    &&& split_params(d.subrange(start, j)) == done.push(d.subrange(lo, j))
}

/// Scans the CSI sequence that starts at `data[at]` (which is ESC).
fn scan_csi_at(data: &[u8], at: usize) -> (r: Result<CsiScan, bool>)
    requires
        at < data@.len(),
    ensures
        r == scan_spec(data@.subrange(at as int, data@.len() as int)),
{
    reveal(scan_spec);
    let ghost d = data@.subrange(at as int, data@.len() as int);
    let n = data.len();
    if n - at < 2 {
        return Err(false);
    }
    if data[at + 1] != 0x5b {
        return Err(true);
    }
    let mut i = at + 2;
    let dec_private = i < n && data[i] == 0x3f;
    if dec_private {
        i = i + 1;
    }
    let start = i;
    assert(start - at == params_start(d));
    proof {
        lemma_skip_params_bounds(d, start - at);
    }
    while i < n && ((data[i] >= 0x30 && data[i] <= 0x39) || data[i] == 0x3b)
        invariant
            at + 2 <= start <= i <= n,
            n == data@.len(),
            d == data@.subrange(at as int, n as int),
            start - at == params_start(d),
            skip_params(d, start - at) == skip_params(d, i - at),
        decreases n - i,
    {
        assert(d[i - at] == data@[i as int]);
        i = i + 1;
    }
    proof {
        if i < n {
            assert(d[i - at] == data@[i as int]);
        }
    }
    assert(skip_params(d, i - at) == i - at);
    if i >= n {
        return Err(false);
    }
    let final_byte = data[i];
    assert(d[i - at] == final_byte);
    if !(final_byte >= 0x40 && final_byte <= 0x7e) {
        return Err(true);
    }
    let end = i;
    // Walk the parameters, classifying each complete piece.
    let ghost pstr = d.subrange(start - at, end - at);
    assert(pstr =~= data@.subrange(start as int, end as int));
    let mut any_alt_x = false;
    let mut any_three_x = false;
    let mut all_e2_x = true;
    let mut ne_count: usize = 0;
    let mut ne_ones = true;
    let mut lo = start;
    let mut j = start;
    let ghost mut done: Seq<Seq<u8>> = Seq::empty();
    proof {
        assert(data@.subrange(start as int, start as int) =~= Seq::<u8>::empty());
    }
    while j < end
        invariant
            start <= lo <= j <= end < n,
            n == data@.len(),
            pieces_invariant(data@, start as int, lo as int, j as int, done),
            any_alt_x == any_alt(done),
            any_three_x == any_three(done),
            all_e2_x == all_empty_or_two(done),
            ne_count as int == if non_empty_params(done).len() <= 3 {
                non_empty_params(done).len() as int
            } else {
                3
            },
            ne_ones == all_ones(non_empty_params(done)),
        decreases end - j,
    {
        let b = data[j];
        proof {
            lemma_split_push(data@.subrange(start as int, j as int), b);
            assert(data@.subrange(start as int, j + 1) =~= data@.subrange(
                start as int,
                j as int,
            ).push(b));
        }
        if b == 0x3b {
            let k = classify_param(data, lo, j);
            let ghost p = data@.subrange(lo as int, j as int);
            proof {
                lemma_push_piece(done, p);
                lemma_ones_push(non_empty_params(done), p);
            }
            any_alt_x = any_alt_x || k.alt_screen;
            any_three_x = any_three_x || k.three;
            all_e2_x = all_e2_x && (j == lo || k.two);
            if j > lo {
                if ne_count < 3 {
                    ne_count = ne_count + 1;
                }
                ne_ones = ne_ones && k.one;
            }
            proof {
                done = done.push(p);
                assert(data@.subrange(j + 1, j + 1) =~= Seq::<u8>::empty());
            }
            lo = j + 1;
        } else {
            proof {
                assert(data@.subrange(lo as int, j + 1) =~= data@.subrange(
                    lo as int,
                    j as int,
                ).push(b));
                assert(done.push(data@.subrange(lo as int, j as int)).update(
                    done.len() as int,
                    data@.subrange(lo as int, j as int).push(b),
                ) =~= done.push(data@.subrange(lo as int, j + 1)));
            }
        }
        j = j + 1;
    }
    // The last piece.
    let k = classify_param(data, lo, end);
    let ghost last = data@.subrange(lo as int, end as int);
    let ghost ps = done.push(last);
    proof {
        lemma_push_piece(done, last);
        lemma_ones_push(non_empty_params(done), last);
        assert(ps == split_params(pstr));
        lemma_home_params(non_empty_params(ps));
    }
    let alt = any_alt_x || k.alt_screen;
    let three = any_three_x || k.three;
    let e2 = all_e2_x && (end == lo || k.two);
    let mut ne_final = ne_count;
    let mut ones_final = ne_ones;
    if end > lo {
        if ne_final < 3 {
            ne_final = ne_final + 1;
        }
        ones_final = ones_final && k.one;
    }
    let alt_switch = dec_private && (final_byte == 0x68 || final_byte == 0x6c) && alt;
    let scan = CsiScan {
        keep: !alt_switch,
        clear_scrollback: final_byte == 0x4a && three,
        cup_home: final_byte == 0x48 && ne_final <= 2 && ones_final,
        erase_all: final_byte == 0x4a && e2,
        len: end - at + 1,
    };
    Ok(scan)
}

/// Scans the CSI sequence at the start of `data`, which starts with ESC.
/// `Ok` carries a complete sequence; `Err(false)` means it is incomplete
/// (wait for more bytes); `Err(true)` means it is not a CSI sequence the
/// filter tracks, so only the ESC byte is consumed.
pub fn scan_csi(data: &[u8]) -> (r: Result<CsiScan, bool>)
    requires
        data@.len() > 0,
        data@[0] == ESC,
    ensures
        r == scan_spec(data@),
{
    assert(data@.subrange(0, data@.len() as int) =~= data@);
    scan_csi_at(data, 0)
}


// ---------------------------------------------------------------------
// The filter
// ---------------------------------------------------------------------

/// Removes alternate-screen switching sequences (`CSI ?47h/l`,
/// `?1047h/l`, `?1049h/l`) from the PTY byte stream and marks where the
/// scrollback is to be cleared.
pub struct AltScreenFilter {
    /// Bytes of an escape sequence split across chunk boundaries.
    pending: Vec<u8>,
    /// Previous kept sequence was a cursor-home, awaiting an adjacent 2J.
    saw_cup_home: bool,
}

impl View for AltScreenFilter {
    /// The held-back bytes and whether a cursor-home was just seen.
    type V = (Seq<u8>, bool);

    closed spec fn view(&self) -> (Seq<u8>, bool) {
        (self.pending@, self.saw_cup_home)
    }
}

/// Moves the contents out of `v`, leaving it empty.
fn take_bytes(v: &mut Vec<u8>) -> (out: Vec<u8>)
    ensures
        out@ == old(v)@,
        final(v)@ == Seq::<u8>::empty(),
{
    let mut out: Vec<u8> = Vec::new();
    std::mem::swap(&mut out, v);
    out
}

/// Appends `data[lo..hi]` to `out`.
fn push_range(out: &mut Vec<u8>, data: &Vec<u8>, lo: usize, hi: usize)
    requires
        lo <= hi <= data@.len(),
    ensures
        final(out)@ == old(out)@ + data@.subrange(lo as int, hi as int),
{
    let mut k = lo;
    while k < hi
        invariant
            lo <= k <= hi <= data@.len(),
            out@ == old(out)@ + data@.subrange(lo as int, k as int),
        decreases hi - k,
    {
        proof {
            assert(data@.subrange(lo as int, k + 1) =~= data@.subrange(lo as int, k as int).push(
                data@[k as int],
            ));
            assert(old(out)@ + data@.subrange(lo as int, k + 1) =~= (old(out)@ + data@.subrange(
                lo as int,
                k as int,
            )).push(data@[k as int]));
        }
        out.push(data[k]);
        k = k + 1;
    }
}

proof fn lemma_byte_events_add(a: Seq<u8>, b: Seq<u8>)
    ensures
        byte_events(a + b) == byte_events(a) + byte_events(b),
{
    assert(byte_events(a + b) =~= byte_events(a) + byte_events(b));
}

proof fn lemma_segment_events_push(segs: Seq<(Vec<u8>, bool)>, seg: (Vec<u8>, bool))
    ensures
        segment_events(segs.push(seg)) == segment_events(segs) + byte_events(seg.0@) + (if seg.1 {
            seq![FilterEvent::ClearScrollback]
        } else {
            Seq::empty()
        }),
{
    assert(segs.push(seg).drop_last() =~= segs);
}

impl AltScreenFilter {
    /// A filter with nothing held back.
    pub fn new() -> (f: Self)
        ensures
            f@ == (Seq::<u8>::empty(), false),
    {
        AltScreenFilter { pending: Vec::new(), saw_cup_home: false }
    }

    /// Returns byte segments in order; `true` marks that a scrollback-clear
    /// fires right after that segment — either an explicit `3J` or the
    /// classic `home + 2J` clear pair. Full-screen apps repaint with the
    /// same pair, so launching one also flushes history. Bytes of a
    /// sequence that is still incomplete are held back for the next call.
    #[verifier::rlimit(60)]
    #[verifier::spinoff_prover]
    pub fn feed(&mut self, chunk: &[u8]) -> (segs: Vec<(Vec<u8>, bool)>)
        requires
            old(self)@.0.len() + chunk@.len() <= usize::MAX,
        ensures
            ({
                let r = run_filter(old(self)@.0 + chunk@, old(self)@.1);
                &&& segment_events(segs@) == r.0
                &&& final(self)@ == (r.1, r.2)
            }),
            segs@.len() >= 1,
            !segs@.last().1,
            forall|k: int| 0 <= k < segs@.len() - 1 ==> (#[trigger] segs@[k]).1,
    {
        let mut data = take_bytes(&mut self.pending);
        let ghost input = data@ + chunk@;
        let ghost saw0 = self.saw_cup_home;
        push_all(&mut data, chunk);
        let n = data.len();
        let mut segments: Vec<(Vec<u8>, bool)> = Vec::new();
        let mut cur: Vec<u8> = Vec::new();
        let mut i: usize = 0;
        proof {
            assert(data@.subrange(0, n as int) =~= input);
            assert(segment_events(segments@) + byte_events(cur@) =~= Seq::<FilterEvent>::empty());
        }
        while i < n
            invariant
                i <= n,
                n == data@.len(),
                data@ == input,
                input == old(self)@.0 + chunk@,
                saw0 == old(self)@.1,
                self.pending@ == Seq::<u8>::empty(),
                segment_events(segments@) + byte_events(cur@) + run_filter(
                    data@.subrange(i as int, n as int),
                    self.saw_cup_home,
                ).0 == run_filter(input, saw0).0,
                run_filter(data@.subrange(i as int, n as int), self.saw_cup_home).1 == run_filter(
                    input,
                    saw0,
                ).1,
                run_filter(data@.subrange(i as int, n as int), self.saw_cup_home).2 == run_filter(
                    input,
                    saw0,
                ).2,
                forall|k: int| 0 <= k < segments@.len() ==> (#[trigger] segments@[k]).1,
            decreases n - i,
        {
            let ghost rest = data@.subrange(i as int, n as int);
            let ghost saw = self.saw_cup_home;
            let ghost before = segment_events(segments@) + byte_events(cur@);
            let b = data[i];
            assert(rest[0] == b);
            let scanned = if b == ESC {
                scan_csi_at(&data, i)
            } else {
                Err(true)
            };
            match scanned {
                Ok(scan) => {
                    proof {
                        lemma_run_scan(rest, saw);
                        lemma_scan_len(rest);
                    }
                    let len = scan.len;
                    let ghost after = data@.subrange(i + len, n as int);
                    assert(rest.subrange(len as int, rest.len() as int) =~= after);
                    if scan.keep {
                        proof {
                            assert(rest.subrange(0, len as int) =~= data@.subrange(
                                i as int,
                                i + len,
                            ));
                        }
                        let ghost cur_before = cur@;
                        push_range(&mut cur, &data, i, i + len);
                        proof {
                            lemma_byte_events_add(cur_before, data@.subrange(i as int, i + len));
                        }
                        let purge = scan.clear_scrollback || (scan.erase_all
                            && self.saw_cup_home);
                        self.saw_cup_home = scan.cup_home;
                        if purge {
                            let seg = take_bytes(&mut cur);
                            let ghost segs_before = segments@;
                            segments.push((seg, true));
                            proof {
                                lemma_segment_events_push(segs_before, (seg, true));
                                assert(byte_events(cur@) =~= Seq::<FilterEvent>::empty());
                            }
                        }
                        i = i + len;
                        proof {
                            assert(segment_events(segments@) + byte_events(cur@) + run_filter(
                                data@.subrange(i as int, n as int),
                                self.saw_cup_home,
                            ).0 =~= before + run_filter(rest, saw).0);
                        }
                    } else {
                        self.saw_cup_home = false;
                        i = i + len;
                    }
                },
                Err(consume_esc_only) => {
                    if consume_esc_only {
                        proof {
                            lemma_run_pass(rest, saw);
                            assert(rest.drop_first() =~= data@.subrange(i + 1, n as int));
                            lemma_byte_events_add(cur@, seq![b]);
                            assert(byte_events(seq![b]) =~= seq![FilterEvent::Byte(b)]);
                        }
                        cur.push(b);
                        i = i + 1;
                        self.saw_cup_home = false;
                        proof {
                            assert(segment_events(segments@) + byte_events(cur@) + run_filter(
                                data@.subrange(i as int, n as int),
                                false,
                            ).0 =~= before + run_filter(rest, saw).0);
                        }
                    } else {
                        proof {
                            lemma_run_hold(rest, saw);
                        }
                        let held = copy_tail(&data, i);
                        self.pending = held;
                        let ghost segs_before = segments@;
                        segments.push((cur, false));
                        proof {
                            lemma_segment_events_push(segs_before, (cur, false));
                            assert(segment_events(segments@) =~= before);
                            assert(before + run_filter(rest, saw).0 =~= before);
                        }
                        return segments;
                    }
                },
            }
        }
        let ghost segs_before = segments@;
        proof {
            assert(data@.subrange(n as int, n as int) =~= Seq::<u8>::empty());
            lemma_run_empty(self.saw_cup_home);
        }
        segments.push((cur, false));
        proof {
            lemma_segment_events_push(segs_before, (cur, false));
            assert(segment_events(segments@) =~= run_filter(input, saw0).0);
        }
        segments
    }
}

/// Appends all of `chunk` to `out`.
fn push_all(out: &mut Vec<u8>, chunk: &[u8])
    requires
        old(out)@.len() + chunk@.len() <= usize::MAX,
    ensures
        final(out)@ == old(out)@ + chunk@,
{
    let mut k: usize = 0;
    while k < chunk.len()
        invariant
            k <= chunk@.len(),
            out@ == old(out)@ + chunk@.subrange(0, k as int),
        decreases chunk@.len() - k,
    {
        proof {
            assert(chunk@.subrange(0, k + 1) =~= chunk@.subrange(0, k as int).push(chunk@[k as int]));
            assert(old(out)@ + chunk@.subrange(0, k + 1) =~= (old(out)@ + chunk@.subrange(
                0,
                k as int,
            )).push(chunk@[k as int]));
        }
        out.push(chunk[k]);
        k = k + 1;
    }
    assert(chunk@.subrange(0, chunk@.len() as int) =~= chunk@);
}

/// A copy of `data[from..]`.
fn copy_tail(data: &Vec<u8>, from: usize) -> (out: Vec<u8>)
    requires
        from <= data@.len(),
    ensures
        out@ == data@.subrange(from as int, data@.len() as int),
{
    let mut out = Vec::new();
    push_range(&mut out, data, from, data.len());
    out
}


// ---------------------------------------------------------------------
// Laws of the filter
// ---------------------------------------------------------------------

proof fn lemma_run_concat(d: Seq<u8>, e: Seq<u8>, saw: bool)
    requires
        d.len() + e.len() <= usize::MAX,
    ensures
        ({
            let r1 = run_filter(d, saw);
            let r2 = run_filter(r1.1 + e, r1.2);
            run_filter(d + e, saw) == (r1.0 + r2.0, r2.1, r2.2)
        }),
    decreases d.len(),
{
    let de = d + e;
    if d.len() == 0 {
        assert(d =~= Seq::<u8>::empty());
        lemma_run_empty(saw);
        assert(de =~= e);
        assert(Seq::<u8>::empty() + e =~= e);
        assert(Seq::<FilterEvent>::empty() + run_filter(e, saw).0 =~= run_filter(e, saw).0);
    } else {
        assert(de[0] == d[0]);
        if d[0] != ESC || scan_spec(d) == Err::<CsiScan, bool>(true) {
            if d[0] == ESC {
                lemma_scan_extend(d, e);
            }
            lemma_run_pass(d, saw);
            lemma_run_pass(de, saw);
            assert(de.drop_first() =~= d.drop_first() + e);
            lemma_run_concat(d.drop_first(), e, false);
            let r1 = run_filter(d.drop_first(), false);
            let r2 = run_filter(r1.1 + e, r1.2);
            assert(seq![FilterEvent::Byte(d[0])] + (r1.0 + r2.0) =~= (seq![FilterEvent::Byte(d[0])]
                + r1.0) + r2.0);
        } else if scan_spec(d) == Err::<CsiScan, bool>(false) {
            lemma_run_hold(d, saw);
            assert(Seq::<FilterEvent>::empty() + run_filter(de, saw).0 =~= run_filter(de, saw).0);
        } else {
            assert(scan_spec(d) is Ok) by {
                match scan_spec(d) {
                    Ok(_) => {},
                    Err(b) => {
                        assert(b == true || b == false);
                    },
                }
            }
            lemma_scan_extend(d, e);
            lemma_scan_len(d);
            lemma_run_scan(d, saw);
            lemma_run_scan(de, saw);
            let scan = scan_spec(d)->Ok_0;
            let tail = d.subrange(scan.len as int, d.len() as int);
            assert(de.subrange(scan.len as int, de.len() as int) =~= tail + e);
            assert(de.subrange(0, scan.len as int) =~= d.subrange(0, scan.len as int));
            let s2 = if !scan.keep { false } else { scan.cup_home };
            lemma_run_concat(tail, e, s2);
            let r1 = run_filter(tail, s2);
            let r2 = run_filter(r1.1 + e, r1.2);
            if scan.keep {
                let purge = scan.clear_scrollback || (scan.erase_all && saw);
                let head = byte_events(d.subrange(0, scan.len as int)) + (if purge {
                    seq![FilterEvent::ClearScrollback]
                } else {
                    Seq::empty()
                });
                assert(head + (r1.0 + r2.0) =~= (head + r1.0) + r2.0);
            }
        }
    }
}

/// Feeding the PTY stream in two chunks gives the same output stream (bytes
/// and scrollback clears, in order) and the same end state as feeding both
/// chunks at once: a sequence split across chunks, wherever the split
/// falls, is reassembled.
pub proof fn law_chunks_reassemble(pending: Seq<u8>, saw_home: bool, a: Seq<u8>, b: Seq<u8>)
    requires
        pending.len() + a.len() + b.len() <= usize::MAX,
    ensures
        ({
            let first = run_filter(pending + a, saw_home);
            let second = run_filter(first.1 + b, first.2);
            let whole = run_filter(pending + (a + b), saw_home);
            &&& whole.0 == first.0 + second.0
            &&& whole.1 == second.1
            &&& whole.2 == second.2
        }),
{
    assert(pending + (a + b) =~= (pending + a) + b);
    lemma_run_concat(pending + a, b, saw_home);
}

/// Bytes without ESC pass through the filter unchanged, with no clear and
/// nothing held back.
pub proof fn law_plain_bytes_pass_through(d: Seq<u8>, saw_home: bool)
    requires
        forall|k: int| 0 <= k < d.len() ==> d[k] != ESC,
    ensures
        run_filter(d, saw_home).0 == byte_events(d),
        run_filter(d, saw_home).1 == Seq::<u8>::empty(),
        d.len() > 0 ==> !run_filter(d, saw_home).2,
    decreases d.len(),
{
    if d.len() == 0 {
        assert(d =~= Seq::<u8>::empty());
        lemma_run_empty(saw_home);
        assert(byte_events(d) =~= Seq::<FilterEvent>::empty());
    } else {
        assert(d[0] != ESC);
        lemma_run_pass(d, saw_home);
        if d.len() == 1 {
            assert(d.drop_first() =~= Seq::<u8>::empty());
            lemma_run_empty(false);
        }
        assert forall|k: int| 0 <= k < d.drop_first().len() implies d.drop_first()[k] != ESC by {
            assert(d.drop_first()[k] == d[k + 1]);
        }
        law_plain_bytes_pass_through(d.drop_first(), false);
        assert(seq![FilterEvent::Byte(d[0])] + byte_events(d.drop_first()) =~= byte_events(d));
    }
}

} // verus!
