//! How the renderer lays out one grid row as text: the text and style of
//! every cell, the runs of neighbouring cells that share a style, and the
//! pieces of a run that are plain text or clickable `http(s)://` links.

use vstd::prelude::*;
use crate::proc_output::{char_is_whitespace, is_white_space};
use crate::render::{block_rects, block_shape, box_drawing, box_mask, cell_contents, cell_text};
use crate::terminal::{cell_index, CellColor, TermCell, TerminalSnapshot};
use crate::text::{chars_of, string_from_chars};

verus! {

/// What a run of cells is painted with: colours, weight, and whether
/// foreground and background swap.
#[derive(Clone, Copy, PartialEq, Eq, Debug)]
pub struct CellStyle {
    pub fg: CellColor,
    pub bg: CellColor,
    pub bold: bool,
    pub inverse: bool,
}

/// The style a row starts with: default colours, regular, not inverted.
pub open spec fn default_style(inverse: bool) -> CellStyle {
    CellStyle { fg: CellColor::Foreground, bg: CellColor::Background, bold: false, inverse }
}

/// The style and text of cell (`row`, `col`): the cell's own style, with
/// foreground and background swapped once more under the cursor, and its
/// text; a box-drawing or block glyph (drawn as rectangles instead) and
/// the spacer of a wide glyph or a missing cell show a no-break space.
pub open spec fn cell_paint(snap: TerminalSnapshot, row: u16, col: u16) -> (CellStyle, Seq<char>) {
    let at_cursor = snap.cursor == Some((row, col));
    let i = cell_index(row, col, snap.cols);
    if 0 <= i < snap.cells@.len() && !snap.cells@[i].wide_spacer {
        let cell = snap.cells@[i];
        (
            CellStyle {
                fg: cell.fg,
                bg: cell.bg,
                bold: cell.bold,
                inverse: cell.inverse != at_cursor,
            },
            if box_mask(cell.ch) is Some || block_rects(cell.ch) is Some {
                seq!['\u{00A0}']
            } else {
                cell_text(Some(cell))
            },
        )
    } else {
        (default_style(at_cursor), seq!['\u{00A0}'])
    }
}

/// The style and text of the first `n` cells of `row`.
pub open spec fn row_paint(snap: TerminalSnapshot, row: u16, n: nat) -> Seq<(CellStyle, Seq<char>)> {
    Seq::new(n, |c: int| cell_paint(snap, row, c as u16))
}

/// A run of neighbouring cells with one style: the column it starts at,
/// the style, and the text of each cell.
pub struct RunView {
    pub start_col: nat,
    pub style: CellStyle,
    pub cells: Seq<Seq<char>>,
}

/// The runs of painted cells: each cell joins the run before it when it
/// has that run's style, and starts a run otherwise.
pub open spec fn runs_of(items: Seq<(CellStyle, Seq<char>)>) -> Seq<RunView>
    decreases items.len(),
{
    if items.len() == 0 {
        Seq::empty()
    } else {
        let prev = runs_of(items.drop_last());
        let item = items.last();
        if prev.len() > 0 && prev.last().style == item.0 {
            prev.update(
                prev.len() - 1,
                RunView {
                    start_col: prev.last().start_col,
                    style: prev.last().style,
                    cells: prev.last().cells.push(item.1),
                },
            )
        } else {
            prev.push(RunView { start_col: (items.len() - 1) as nat, style: item.0, cells: seq![item.1] })
        }
    }
}

/// A run of cells the renderer paints as one piece of text.
pub struct TextRun {
    pub start_col: usize,
    pub style: CellStyle,
    pub cells: Vec<String>,
}

/// The views of the texts of cells.
pub open spec fn cell_views(cells: Seq<String>) -> Seq<Seq<char>> {
    cells.map_values(|s: String| s@)
}

impl View for TextRun {
    type V = RunView;

    open spec fn view(&self) -> RunView {
        RunView { start_col: self.start_col as nat, style: self.style, cells: cell_views(self.cells@) }
    }
}

/// The views of a list of runs.
pub open spec fn run_views(runs: Seq<TextRun>) -> Seq<RunView> {
    runs.map_values(|r: TextRun| r@)
}

/// Whether two cell colours are the same.
fn same_color(a: &CellColor, b: &CellColor) -> (r: bool)
    ensures
        r == (*a == *b),
{
    match (a, b) {
        (CellColor::Foreground, CellColor::Foreground) => true,
        (CellColor::Background, CellColor::Background) => true,
        (CellColor::Rgb(x), CellColor::Rgb(y)) => {
            let same = x[0] == y[0] && x[1] == y[1] && x[2] == y[2];
            proof {
                if same {
                    assert(*x =~= *y);
                }
            }
            same
        },
        (CellColor::Palette(x), CellColor::Palette(y)) => *x == *y,
        _ => false,
    }
}

/// Whether two styles are the same.
fn same_style(a: &CellStyle, b: &CellStyle) -> (r: bool)
    ensures
        r == (*a == *b),
{
    same_color(&a.fg, &b.fg) && same_color(&a.bg, &b.bg) && a.bold == b.bold && a.inverse == b.inverse
}

/// The style and text of cell (`row`, `col`); see `cell_paint`.
fn paint_cell(snap: &TerminalSnapshot, row: u16, col: u16) -> (r: (CellStyle, String))
    ensures
        r.0 == cell_paint(*snap, row, col).0,
        r.1@ == cell_paint(*snap, row, col).1,
{
    let at_cursor = match snap.cursor {
        Some((r, c)) => r == row && c == col,
        None => false,
    };
    match snap.cell(row, col) {
        Some(cell) => {
            if cell.wide_spacer {
                let s = string_from_chars(&vec!['\u{00A0}']);
                (
                    CellStyle {
                        fg: CellColor::Foreground,
                        bg: CellColor::Background,
                        bold: false,
                        inverse: at_cursor,
                    },
                    s,
                )
            } else {
                let glyph = box_drawing(cell.ch).is_some() || block_shape(cell.ch).is_some();
                let text = if glyph {
                    string_from_chars(&vec!['\u{00A0}'])
                } else {
                    cell_contents(Some(cell))
                };
                (
                    CellStyle {
                        fg: cell.fg,
                        bg: cell.bg,
                        bold: cell.bold,
                        inverse: cell.inverse != at_cursor,
                    },
                    text,
                )
            }
        },
        None => {
            let s = string_from_chars(&vec!['\u{00A0}']);
            (
                CellStyle {
                    fg: CellColor::Foreground,
                    bg: CellColor::Background,
                    bold: false,
                    inverse: at_cursor,
                },
                s,
            )
        },
    }
}

/// The runs of row `row` of the snapshot, over its `cols` columns; see
/// `runs_of`.
pub fn row_runs(snap: &TerminalSnapshot, row: u16) -> (runs: Vec<TextRun>)
    ensures
        run_views(runs@) == runs_of(row_paint(*snap, row, snap.cols as nat)),
{
    let n = snap.cols;
    let mut runs: Vec<TextRun> = Vec::new();
    let mut c: u16 = 0;
    while c < n
        invariant
            c <= n,
            n == snap.cols,
            run_views(runs@) == runs_of(row_paint(*snap, row, c as nat)),
            forall|k: int| 0 <= k < runs@.len() ==> (#[trigger] runs@[k]).start_col < c,
        decreases n - c,
    {
        let (style, text) = paint_cell(snap, row, c);
        let ghost items = row_paint(*snap, row, (c + 1) as nat);
        let ghost prev_views = run_views(runs@);
        assert(items.drop_last() =~= row_paint(*snap, row, c as nat));
        assert(items.last() == cell_paint(*snap, row, c));
        let joins = match runs.last() {
            Some(last) => same_style(&last.style, &style),
            None => false,
        };
        if joins {
            let mut last = runs.pop().unwrap();
            let ghost last_view = last@;
            last.cells.push(text);
            assert(cell_views(last.cells@) =~= last_view.cells.push(cell_paint(*snap, row, c).1));
            runs.push(last);
            assert(run_views(runs@) =~= prev_views.update(
                prev_views.len() - 1,
                RunView {
                    start_col: prev_views.last().start_col,
                    style: prev_views.last().style,
                    cells: prev_views.last().cells.push(cell_paint(*snap, row, c).1),
                },
            ));
        } else {
            let cells = vec![text];
            assert(cell_views(cells@) =~= seq![cell_paint(*snap, row, c).1]);
            runs.push(TextRun { start_col: c as usize, style, cells });
            assert(run_views(runs@) =~= prev_views.push(
                RunView { start_col: c as nat, style, cells: seq![cell_paint(*snap, row, c).1] },
            ));
        }
        c = c + 1;
    }
    runs
}

// ---------------------------------------------------------------------
// Links
// ---------------------------------------------------------------------

/// Whether a link starts at index `i` of `t`: `http://` or `https://`.
pub open spec fn url_at(t: Seq<char>, i: int) -> bool {
    (i + 7 <= t.len() && t.subrange(i, i + 7) == "http://"@) || (i + 8 <= t.len() && t.subrange(i, i + 8)
        == "https://"@)
}

/// The first index at or after `i` where a link starts, or the length.
pub open spec fn next_url(t: Seq<char>, i: int) -> int
    decreases t.len() - i,
{
    if i >= t.len() {
        t.len() as int
    } else if url_at(t, i) {
        i
    } else {
        next_url(t, i + 1)
    }
}

/// A character that ends a link: white space, a quote, or a closing
/// bracket.
pub open spec fn ends_url(c: char) -> bool {
    is_white_space(c) || c == '"' || c == '\'' || c == ')' || c == ']' || c == '>'
}

/// The first index at or after `i` whose character ends a link, or the
/// length.
pub open spec fn url_end(t: Seq<char>, i: int) -> int
    decreases t.len() - i,
{
    if i >= t.len() {
        t.len() as int
    } else if ends_url(t[i]) {
        i
    } else {
        url_end(t, i + 1)
    }
}

/// Where the link starting at `u` ends: at the first character that ends
/// a link, and at least one character on (no `http` begins with one).
pub open spec fn link_end(t: Seq<char>, u: int) -> int {
    let e = url_end(t, u);
    if e <= u {
        u + 1
    } else {
        e
    }
}

/// The search helpers stay within the text and move forward.
pub proof fn lemma_search_bounds(t: Seq<char>, i: int)
    requires
        0 <= i <= t.len(),
    ensures
        i <= next_url(t, i) <= t.len(),
        i <= url_end(t, i) <= t.len(),
        next_url(t, i) < t.len() ==> url_at(t, next_url(t, i)),
        forall|k: int| i <= k < next_url(t, i) ==> !url_at(t, k),
    decreases t.len() - i,
{
    if i < t.len() {
        lemma_search_bounds(t, i + 1);
    }
}

/// The pieces of `t` from index `i` on, as (start, end, is a link): text
/// up to the next link, then the link, and so on.
pub open spec fn pieces_from(t: Seq<char>, i: int) -> Seq<(int, int, bool)>
    decreases t.len() - i,
{
    if i < 0 || i >= t.len() {
        Seq::empty()
    } else {
        let u = next_url(t, i);
        proof {
            lemma_search_bounds(t, i);
        }
        if u >= t.len() {
            seq![(i, t.len() as int, false)]
        } else {
            let e = link_end(t, u);
            proof {
                lemma_search_bounds(t, u);
            }
            let rest = pieces_from(t, e);
            if u > i {
                seq![(i, u, false), (u, e, true)] + rest
            } else {
                seq![(u, e, true)] + rest
            }
        }
    }
}

/// Everything before `url_end(t, i)` from `i` on continues a link, and
/// what stands at it (when inside the text) ends one.
proof fn lemma_url_end_stops(t: Seq<char>, i: int)
    requires
        0 <= i <= t.len(),
    ensures
        forall|k: int| i <= k < url_end(t, i) ==> !ends_url(#[trigger] t[k]),
        url_end(t, i) < t.len() ==> ends_url(t[url_end(t, i)]),
    decreases t.len() - i,
{
    if i < t.len() {
        lemma_url_end_stops(t, i + 1);
    }
}

/// Every link piece of `pieces_from(t, i)` runs from its start up to the
/// first character that ends a link.
proof fn lemma_link_pieces_stop(t: Seq<char>, i: int)
    requires
        0 <= i,
    ensures
        forall|j: int|
            0 <= j < pieces_from(t, i).len() && (#[trigger] pieces_from(t, i)[j]).2 ==> {
                let (u, e, _) = pieces_from(t, i)[j];
                &&& 0 <= u < e <= t.len()
                &&& forall|k: int| u <= k < e ==> !ends_url(#[trigger] t[k])
                &&& (e == t.len() || ends_url(t[e]))
            },
    decreases t.len() - i,
{
    if i < t.len() {
        lemma_search_bounds(t, i);
        let u = next_url(t, i);
        if u < t.len() {
            lemma_search_bounds(t, u);
            lemma_url_end_stops(t, u);
            reveal_strlit("http://");
            reveal_strlit("https://");
            if u + 7 <= t.len() && t.subrange(u, u + 7) == "http://"@ {
                assert(t[u] == t.subrange(u, u + 7)[0]);
            } else {
                assert(t[u] == t.subrange(u, u + 8)[0]);
            }
            assert(!ends_url(t[u]));
            assert(url_end(t, u) > u);
            let e = link_end(t, u);
            lemma_link_pieces_stop(t, e);
            let rest = pieces_from(t, e);
            let ps = pieces_from(t, i);
            let off: int = if u > i { 2 } else { 1 };
            assert forall|j: int| 0 <= j < ps.len() && (#[trigger] ps[j]).2 implies {
                let (a, b, _) = ps[j];
                &&& 0 <= a < b <= t.len()
                &&& forall|k: int| a <= k < b ==> !ends_url(#[trigger] t[k])
                &&& (b == t.len() || ends_url(t[b]))
            } by {
                if j >= off {
                    assert(ps[j] == rest[j - off]);
                }
            }
        }
    }
}

/// A link runs up to the first character that is white space, a quote
/// (`"` or `'`) or a closing bracket (`)`, `]`, `>`): none of these lies
/// inside a link piece, and the character right after one, if any, is one
/// of them.
pub proof fn law_links_stop_at_spaces_quotes_and_brackets(t: Seq<char>)
    ensures
        forall|j: int|
            0 <= j < pieces_from(t, 0).len() && (#[trigger] pieces_from(t, 0)[j]).2 ==> {
                let (u, e, _) = pieces_from(t, 0)[j];
                &&& 0 <= u < e <= t.len()
                &&& forall|k: int|
                    u <= k < e ==> {
                        let c = #[trigger] t[k];
                        !is_white_space(c) && c != '"' && c != '\'' && c != ')' && c != ']'
                            && c != '>'
                    }
                &&& (e == t.len() || {
                    let c = t[e];
                    is_white_space(c) || c == '"' || c == '\'' || c == ')' || c == ']' || c
                        == '>'
                })
            },
{
    lemma_link_pieces_stop(t, 0);
}

/// The concatenated text of the first `k` cells.
pub open spec fn joined(cells: Seq<Seq<char>>, k: int) -> Seq<char>
    decreases k,
{
    if k <= 0 {
        Seq::empty()
    } else {
        joined(cells, k - 1) + cells[k - 1]
    }
}

/// The number of cells whose joined text first reaches `offset`
/// characters, or all cells when none does.
pub open spec fn cell_at(cells: Seq<Seq<char>>, offset: int, k: int) -> int
    decreases cells.len() - k,
{
    if k >= cells.len() {
        cells.len() as int
    } else if joined(cells, k).len() >= offset {
        k
    } else {
        cell_at(cells, offset, k + 1)
    }
}

/// A piece of a run: the cells `start_cell..end_cell` it covers, its text
/// and whether it is a link.
pub struct Piece {
    pub start_cell: usize,
    pub end_cell: usize,
    pub text: String,
    pub is_link: bool,
}

/// What the renderer makes of piece (`a`, `b`, `link`) of a run's text
/// `t` over `cells`: the cells it covers and its characters. A trailing
/// piece of plain text covers every remaining cell.
pub open spec fn piece_cells(cells: Seq<Seq<char>>, t: Seq<char>, p: (int, int, bool)) -> (int, int) {
    (cell_at(cells, p.0, 0), if !p.2 && p.1 == t.len() {
        cells.len() as int
    } else {
        cell_at(cells, p.1, 0)
    })
}

/// Whether a link starts at index `i` of `t`.
fn url_at_exec(t: &Vec<char>, i: usize) -> (r: bool)
    requires
        i <= t@.len(),
    ensures
        r == url_at(t@, i as int),
{
    proof {
        reveal_strlit("http://");
        reveal_strlit("https://");
    }
    let n = t.len();
    let http = n - i >= 7 && t[i] == 'h' && t[i + 1] == 't' && t[i + 2] == 't' && t[i + 3] == 'p'
        && t[i + 4] == ':' && t[i + 5] == '/' && t[i + 6] == '/';
    let https = n - i >= 8 && t[i] == 'h' && t[i + 1] == 't' && t[i + 2] == 't' && t[i + 3] == 'p'
        && t[i + 4] == 's' && t[i + 5] == ':' && t[i + 6] == '/' && t[i + 7] == '/';
    proof {
        if n - i >= 7 {
            let s7 = t@.subrange(i as int, i + 7);
            if s7 == "http://"@ {
                assert(s7[0] == 'h' && s7[1] == 't' && s7[2] == 't' && s7[3] == 'p');
                assert(s7[4] == ':' && s7[5] == '/' && s7[6] == '/');
            }
            if http {
                assert(s7 =~= "http://"@);
            }
        }
        if n - i >= 8 {
            let s8 = t@.subrange(i as int, i + 8);
            if s8 == "https://"@ {
                assert(s8[0] == 'h' && s8[1] == 't' && s8[2] == 't' && s8[3] == 'p');
                assert(s8[4] == 's' && s8[5] == ':' && s8[6] == '/' && s8[7] == '/');
            }
            if https {
                assert(s8 =~= "https://"@);
            }
        }
    }
    http || https
}

/// Whether `c` ends a link.
fn ends_url_exec(c: char) -> (r: bool)
    ensures
        r == ends_url(c),
{
    char_is_whitespace(c) || c == '"' || c == '\'' || c == ')' || c == ']' || c == '>'
}

/// The number of cells whose joined text first reaches `offset`
/// characters; see `cell_at`.
fn cell_at_exec(cells: &Vec<String>, lens: &Vec<usize>, offset: usize) -> (k: usize)
    requires
        lens@.len() == cells@.len() + 1,
        forall|j: int| 0 <= j <= cells@.len() ==> #[trigger] lens@[j] == joined(cell_views(cells@), j).len(),
    ensures
        k == cell_at(cell_views(cells@), offset as int, 0),
        k <= cells@.len(),
{
    let mut k: usize = 0;
    while k < cells.len()
        invariant
            k <= cells@.len(),
            lens@.len() == cells@.len() + 1,
            forall|j: int|
                0 <= j <= cells@.len() ==> #[trigger] lens@[j] == joined(cell_views(cells@), j).len(),
            cell_at(cell_views(cells@), offset as int, 0) == cell_at(
                cell_views(cells@),
                offset as int,
                k as int,
            ),
        decreases cells@.len() - k,
    {
        if lens[k] >= offset {
            return k;
        }
        k = k + 1;
    }
    k
}

/// Splits the text of a run into plain pieces and `http(s)://` links, each
/// with the cells it covers; see `pieces_from` and `piece_cells`.
pub fn link_pieces(cells: &Vec<String>) -> (pieces: Vec<Piece>)
    requires
        joined(cell_views(cells@), cells@.len() as int).len() <= usize::MAX,
    ensures
        ({
            let cv = cell_views(cells@);
            let t = joined(cv, cells@.len() as int);
            let ps = pieces_from(t, 0);
            &&& pieces@.len() == ps.len()
            &&& forall|k: int|
                0 <= k < ps.len() ==> {
                    let p = #[trigger] pieces@[k];
                    &&& p.is_link == ps[k].2
                    &&& p.text@ == t.subrange(ps[k].0, ps[k].1)
                    &&& (p.start_cell as int, p.end_cell as int) == piece_cells(cv, t, ps[k])
                }
        }),
{
    let ghost cv = cell_views(cells@);
    // The joined text, and its length after each cell.
    let mut t: Vec<char> = Vec::new();
    let mut lens: Vec<usize> = vec![0];
    let mut k: usize = 0;
    while k < cells.len()
        invariant
            k <= cells@.len(),
            cv == cell_views(cells@),
            joined(cv, cells@.len() as int).len() <= usize::MAX,
            t@ == joined(cv, k as int),
            lens@.len() == k + 1,
            forall|j: int| 0 <= j <= k ==> #[trigger] lens@[j] == joined(cv, j).len(),
        decreases cells@.len() - k,
    {
        proof {
            lemma_joined_grows(cv, k + 1, cells@.len() as int);
        }
        let cs = chars_of(cells[k].as_str());
        assert(cs@ == cv[k as int]);
        let ghost before = t@;
        let mut j: usize = 0;
        while j < cs.len()
            invariant
                j <= cs@.len(),
                t@ == before + cs@.take(j as int),
            decreases cs@.len() - j,
        {
            t.push(cs[j]);
            j = j + 1;
            assert(t@ =~= before + cs@.take(j as int));
        }
        assert(cs@.take(cs@.len() as int) =~= cs@);
        lens.push(t.len());
        k = k + 1;
    }
    let ghost tv = t@;
    let n = t.len();
    let mut pieces: Vec<Piece> = Vec::new();
    // The (start, end, is a link) of each piece made so far.
    let ghost mut made: Seq<(int, int, bool)> = Seq::empty();
    let mut i: usize = 0;
    assert(pieces_from(tv, 0) =~= made + pieces_from(tv, 0));
    while i < n
        invariant
            n == t@.len(),
            tv == t@,
            tv == joined(cv, cells@.len() as int),
            cv == cell_views(cells@),
            lens@.len() == cells@.len() + 1,
            forall|j: int| 0 <= j <= cells@.len() ==> #[trigger] lens@[j] == joined(cv, j).len(),
            i <= n,
            pieces_from(tv, 0) == made + pieces_from(tv, i as int),
            made.len() == pieces@.len(),
            forall|m: int|
                0 <= m < pieces@.len() ==> {
                    let p = #[trigger] pieces@[m];
                    let q = made[m];
                    &&& p.is_link == q.2
                    &&& p.text@ == tv.subrange(q.0, q.1)
                    &&& (p.start_cell as int, p.end_cell as int) == piece_cells(cv, tv, q)
                },
        decreases n - i,
    {
        proof {
            lemma_search_bounds(tv, i as int);
        }
        let mut u: usize = i;
        let mut found = url_at_exec(&t, u);
        while u < n && !found
            invariant
                i <= u <= n,
                n == t@.len(),
                found == url_at(t@, u as int),
                next_url(t@, i as int) == next_url(t@, u as int),
            decreases n - u,
        {
            u = u + 1;
            found = url_at_exec(&t, u);
        }
        if u >= n {
            let piece = Piece {
                start_cell: cell_at_exec(cells, &lens, i),
                end_cell: cells.len(),
                text: string_from_chars(&chars_between(&t, i, n)),
                is_link: false,
            };
            pieces.push(piece);
            proof {
                assert(pieces_from(tv, i as int) =~= seq![(i as int, n as int, false)]);
                made = made.push((i as int, n as int, false));
                assert(pieces_from(tv, n as int) =~= Seq::<(int, int, bool)>::empty());
            }
            i = n;
        } else {
            let mut e: usize = u;
            let mut stop = ends_url_exec(t[e]);
            while e < n && !stop
                invariant
                    u <= e <= n,
                    n == t@.len(),
                    e < n ==> stop == ends_url(t@[e as int]),
                    url_end(t@, u as int) == url_end(t@, e as int),
                decreases n - e,
            {
                e = e + 1;
                if e < n {
                    stop = ends_url_exec(t[e]);
                }
            }
            if e <= u {
                e = u + 1;
            }
            if u > i {
                let plain = Piece {
                    start_cell: cell_at_exec(cells, &lens, i),
                    end_cell: cell_at_exec(cells, &lens, u),
                    text: string_from_chars(&chars_between(&t, i, u)),
                    is_link: false,
                };
                pieces.push(plain);
            }
            let link = Piece {
                start_cell: cell_at_exec(cells, &lens, u),
                end_cell: cell_at_exec(cells, &lens, e),
                text: string_from_chars(&chars_between(&t, u, e)),
                is_link: true,
            };
            pieces.push(link);
            proof {
                lemma_search_bounds(tv, u as int);
                if u > i {
                    made = made + seq![(i as int, u as int, false), (u as int, e as int, true)];
                } else {
                    made = made + seq![(u as int, e as int, true)];
                }
            }
            i = e;
        }
    }
    proof {
        assert(pieces_from(tv, n as int) =~= Seq::<(int, int, bool)>::empty());
        assert(made + Seq::<(int, int, bool)>::empty() =~= made);
    }
    pieces
}

/// Characters `lo..hi` of `t`.
fn chars_between(t: &Vec<char>, lo: usize, hi: usize) -> (r: Vec<char>)
    requires
        lo <= hi <= t@.len(),
    ensures
        r@ == t@.subrange(lo as int, hi as int),
{
    let mut out: Vec<char> = Vec::new();
    let mut k: usize = lo;
    while k < hi
        invariant
            lo <= k <= hi <= t@.len(),
            out@ == t@.subrange(lo as int, k as int),
        decreases hi - k,
    {
        out.push(t[k]);
        k = k + 1;
        assert(out@ =~= t@.subrange(lo as int, k as int));
    }
    out
}

/// The joined text grows with the number of cells.
proof fn lemma_joined_grows(cells: Seq<Seq<char>>, a: int, b: int)
    requires
        0 <= a <= b,
    ensures
        joined(cells, a).len() <= joined(cells, b).len(),
    decreases b - a,
{
    if a < b {
        lemma_joined_grows(cells, a, b - 1);
    }
}

} // verus!
