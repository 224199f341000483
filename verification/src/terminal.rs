//! What the renderer paints and the text input sent to the shell: cell
//! colours, terminal snapshots, copying a cell range as text, and encoding
//! typed text for the PTY.

use vstd::prelude::*;
use crate::text::string_from_chars;
use vstd::string::StringSliceAdditionalSpecFns;

verus! {

/// A colour as the emulator core stores it on a cell: a named colour (by
/// its number in the emulator's colour table: 0–15 the ANSI colours, 256
/// foreground, 257 background, 258 cursor, 259–266 the dim colours, 267
/// bright foreground, 268 dim foreground), a truecolor value, or a palette
/// index.
#[derive(Clone, Copy, PartialEq, Eq, Debug)]
pub enum AnsiColor {
    Named(u16),
    Spec([u8; 3]),
    Indexed(u8),
}

/// A resolved cell colour: either one of the terminal's defaults or an
/// explicit palette entry / truecolor value.
#[derive(Clone, Copy, PartialEq, Eq, Debug)]
pub enum CellColor {
    Foreground,
    Background,
    Rgb([u8; 3]),
    Palette(u8),
}

/// How the renderer treats an emulator colour.
pub open spec fn map_color_spec(color: AnsiColor) -> CellColor {
    match color {
        AnsiColor::Named(n) => {
            if n < 16 {
                CellColor::Palette(n as u8)
            } else if n == 257 {
                CellColor::Background
            } else if 259 <= n <= 266 {
                CellColor::Palette((n - 259) as u8)
            } else {
                // Foreground, bright/dim foreground, the cursor colour and any
                // other name paint as the default foreground.
                CellColor::Foreground
            }
        },
        AnsiColor::Spec(rgb) => CellColor::Rgb(rgb),
        AnsiColor::Indexed(i) => CellColor::Palette(i),
    }
}

/// Maps an emulator colour to a cell colour. The dim colours have no
/// separate palette and fall back to their base colours.
pub fn map_color(color: AnsiColor) -> (c: CellColor)
    ensures
        c == map_color_spec(color),
{
    match color {
        AnsiColor::Named(n) => {
            if n == 256 || n == 267 || n == 268 {
                CellColor::Foreground
            } else if n == 257 {
                CellColor::Background
            } else if n == 258 {
                CellColor::Foreground
            } else if n < 16 {
                CellColor::Palette(n as u8)
            } else if n >= 259 && n <= 266 {
                CellColor::Palette((n - 259) as u8)
            } else {
                CellColor::Foreground
            }
        },
        AnsiColor::Spec(rgb) => CellColor::Rgb(rgb),
        AnsiColor::Indexed(i) => CellColor::Palette(i),
    }
}

/// One grid cell as the renderer should paint it.
#[derive(Clone, Debug)]
pub struct TermCell {
    pub ch: char,
    pub zero_width: Vec<char>,
    pub fg: CellColor,
    pub bg: CellColor,
    pub bold: bool,
    pub italic: bool,
    pub underline: bool,
    pub inverse: bool,
    /// Continuation column of a double-width glyph; renderers must emit a
    /// blank here to keep the grid aligned.
    pub wide_spacer: bool,
}

/// An immutable view of exactly what the user sees (live screen plus any
/// scrolled-back history).
#[derive(Clone, Debug)]
pub struct TerminalSnapshot {
    pub rows: u16,
    pub cols: u16,
    /// Lines of history currently scrolled up from the live screen.
    pub offset: usize,
    /// Total lines of history that exist.
    pub history: usize,
    /// Cursor position relative to the viewport top-left, present only when
    /// the live screen is visible.
    pub cursor: Option<(u16, u16)>,
    pub hide_cursor: bool,
    /// Exactly `rows * cols` cells, row-major from the viewport top-left.
    pub cells: Vec<TermCell>,
}

/// The index of cell (`row`, `col`) in a row-major grid `cols` wide.
pub open spec fn cell_index(row: u16, col: u16, cols: u16) -> int {
    row * cols + col
}

/// The text a cell contributes when copied: its character and the
/// zero-width characters combined with it, nothing for the spacer of a
/// wide glyph, a space where there is no cell.
pub open spec fn copied_cell_text(snap: TerminalSnapshot, row: u16, col: u16) -> Seq<char> {
    let i = cell_index(row, col, snap.cols);
    if 0 <= i < snap.cells@.len() {
        let cell = snap.cells@[i];
        if cell.wide_spacer {
            seq![' ']
        } else {
            seq![cell.ch] + cell.zero_width@
        }
    } else {
        seq![' ']
    }
}

/// The copied text of columns `lo..hi` of `row`.
pub open spec fn copied_row_text(snap: TerminalSnapshot, row: u16, lo: int, hi: int) -> Seq<char>
    decreases hi - lo,
{
    if hi <= lo {
        Seq::empty()
    } else {
        copied_row_text(snap, row, lo, hi - 1) + copied_cell_text(snap, row, (hi - 1) as u16)
    }
}

/// The copied text of rows `lo..hi` over columns `c_lo..=c_hi`, rows
/// separated by newlines.
pub open spec fn copied_rows_text(
    snap: TerminalSnapshot,
    lo: int,
    hi: int,
    c_lo: u16,
    c_hi: u16,
) -> Seq<char>
    decreases hi - lo,
{
    if hi <= lo {
        Seq::empty()
    } else if hi == lo + 1 {
        copied_row_text(snap, lo as u16, c_lo as int, c_hi + 1)
    } else {
        copied_rows_text(snap, lo, hi - 1, c_lo, c_hi) + seq!['\n'] + copied_row_text(
            snap,
            (hi - 1) as u16,
            c_lo as int,
            c_hi + 1,
        )
    }
}

/// Copying the one-cell range at column `col` of `row` gives everything
/// the cell shows: its character followed by all the zero-width
/// characters combined with it (Thai vowels, accents), or one space for
/// the spacer half of a wide glyph and where the grid has no cell.
pub proof fn law_copied_cell_keeps_combining_marks(snap: TerminalSnapshot, row: u16, col: u16)
    ensures
        ({
            let i = row * snap.cols + col;
            copied_rows_text(snap, row as int, row + 1, col, col) == if 0 <= i < snap.cells@.len()
                && !snap.cells@[i].wide_spacer {
                seq![snap.cells@[i].ch] + snap.cells@[i].zero_width@
            } else {
                seq![' ']
            }
        }),
{
    let t = copied_rows_text(snap, row as int, row + 1, col, col);
    assert(copied_row_text(snap, row, col as int, col as int) == Seq::<char>::empty());
    assert(t == Seq::<char>::empty() + copied_cell_text(snap, row, col));
    assert(Seq::<char>::empty() + copied_cell_text(snap, row, col) =~= copied_cell_text(snap, row, col));
}

pub open spec fn min_u16(a: u16, b: u16) -> u16 {
    if a <= b {
        a
    } else {
        b
    }
}

pub open spec fn max_u16(a: u16, b: u16) -> u16 {
    if a >= b {
        a
    } else {
        b
    }
}

impl TerminalSnapshot {
    /// The cell at (`row`, `col`), when the grid has one there.
    pub fn cell(&self, row: u16, col: u16) -> (r: Option<&TermCell>)
        ensures
            0 <= cell_index(row, col, self.cols) < self.cells@.len() ==> r == Some(
                &self.cells@[cell_index(row, col, self.cols)],
            ),
            !(0 <= cell_index(row, col, self.cols) < self.cells@.len()) ==> r is None,
    {
        assert((row as int) * (self.cols as int) <= 65535 * 65535) by (nonlinear_arith)
            requires
                row <= 65535,
                self.cols <= 65535,
                row >= 0,
                self.cols >= 0,
        ;
        let i = row as usize * self.cols as usize + col as usize;
        if i < self.cells.len() {
            Some(&self.cells[i])
        } else {
            None
        }
    }

    /// The text in a viewport-relative cell range (inclusive; corners given
    /// as (column, row) in either order), one line per row — used for
    /// copy-to-clipboard.
    pub fn text_in_range(&self, a: (u16, u16), b: (u16, u16)) -> (text: String)
        ensures
            text@ == copied_rows_text(
                *self,
                min_u16(a.1, b.1) as int,
                max_u16(a.1, b.1) + 1,
                min_u16(a.0, b.0),
                max_u16(a.0, b.0),
            ),
    {
        let (c1, r1) = a;
        let (c2, r2) = b;
        let min_c = if c1 <= c2 {
            c1
        } else {
            c2
        };
        let max_c = if c1 >= c2 {
            c1
        } else {
            c2
        };
        let min_r = if r1 <= r2 {
            r1
        } else {
            r2
        };
        let max_r = if r1 >= r2 {
            r1
        } else {
            r2
        };
        let mut out: Vec<char> = Vec::new();
        let mut r: u32 = min_r as u32;
        while r <= max_r as u32
            invariant
                min_r <= r <= max_r + 1,
                min_c <= max_c,
                out@ == copied_rows_text(*self, min_r as int, r as int, min_c, max_c),
            decreases max_r + 1 - r,
        {
            if r > min_r as u32 {
                out.push('\n');
            }
            let ghost before = out@;
            let mut c: u32 = min_c as u32;
            while c <= max_c as u32
                invariant
                    min_c <= c <= max_c + 1,
                    min_r <= r <= max_r,
                    out@ == before + copied_row_text(*self, r as u16, min_c as int, c as int),
                decreases max_c + 1 - c,
            {
                let ghost before_cell = out@;
                match self.cell(r as u16, c as u16) {
                    Some(cell) => {
                        if cell.wide_spacer {
                            out.push(' ');
                        } else {
                            out.push(cell.ch);
                            let mut z: usize = 0;
                            while z < cell.zero_width.len()
                                invariant
                                    z <= cell.zero_width@.len(),
                                    out@ == before_cell + seq![cell.ch]
                                        + cell.zero_width@.subrange(0, z as int),
                                decreases cell.zero_width@.len() - z,
                            {
                                out.push(cell.zero_width[z]);
                                z = z + 1;
                                assert(out@ =~= before_cell + seq![cell.ch]
                                    + cell.zero_width@.subrange(0, z as int));
                            }
                            assert(cell.zero_width@.subrange(0, z as int) =~= cell.zero_width@);
                        }
                    },
                    None => {
                        out.push(' ');
                    },
                }
                assert(out@ =~= before + copied_row_text(*self, r as u16, min_c as int, c + 1));
                c = c + 1;
            }
            assert(out@ =~= copied_rows_text(*self, min_r as int, r + 1, min_c, max_c));
            r = r + 1;
        }
        string_from_chars(&out)
    }
}

/// Where the snapshot shows the cursor: only on the live screen
/// (`offset` 0) and when not hidden, clamped into the grid.
pub open spec fn snapshot_cursor_spec(
    offset: usize,
    hidden: bool,
    line: i32,
    column: usize,
    rows: u16,
    cols: u16,
) -> Option<(u16, u16)> {
    if offset == 0 && !hidden {
        let l = (if line < 0 {
            0
        } else {
            line
        }) as u16;
        let c = column as u16;
        let max_r = if rows == 0 {
            0
        } else {
            (rows - 1) as u16
        };
        let max_c = if cols == 0 {
            0
        } else {
            (cols - 1) as u16
        };
        Some((min_u16(l, max_r), min_u16(c, max_c)))
    } else {
        None
    }
}

/// The cursor position a snapshot carries, from the emulator's cursor
/// point. The cursor belongs to the live screen; while scrolled into
/// history it would highlight an arbitrary historical cell.
pub fn snapshot_cursor(
    offset: usize,
    hidden: bool,
    line: i32,
    column: usize,
    rows: u16,
    cols: u16,
) -> (r: Option<(u16, u16)>)
    ensures
        r == snapshot_cursor_spec(offset, hidden, line, column, rows, cols),
{
    if offset == 0 && !hidden {
        let l = (if line < 0 {
            0
        } else {
            line
        }) as u16;
        let c = column as u16;
        let max_r = if rows == 0 {
            0
        } else {
            rows - 1
        };
        let max_c = if cols == 0 {
            0
        } else {
            cols - 1
        };
        Some((if l <= max_r {
            l
        } else {
            max_r
        }, if c <= max_c {
            c
        } else {
            max_c
        }))
    } else {
        None
    }
}

// ---------------------------------------------------------------------
// Text input
// ---------------------------------------------------------------------

/// `ESC [ 200 ~`, which opens a bracketed paste.
pub open spec fn paste_start() -> Seq<u8> {
    seq![0x1bu8, 0x5bu8, 0x32u8, 0x30u8, 0x30u8, 0x7eu8]
}

/// `ESC [ 201 ~`, which closes a bracketed paste.
pub open spec fn paste_end() -> Seq<u8> {
    seq![0x1bu8, 0x5bu8, 0x32u8, 0x30u8, 0x31u8, 0x7eu8]
}

fn push_bytes(out: &mut Vec<u8>, bytes: &[u8])
    ensures
        final(out)@ == old(out)@ + bytes@,
{
    let mut k: usize = 0;
    while k < bytes.len()
        invariant
            k <= bytes@.len(),
            out@ == old(out)@ + bytes@.subrange(0, k as int),
        decreases bytes@.len() - k,
    {
        out.push(bytes[k]);
        k = k + 1;
        assert(out@ =~= old(out)@ + bytes@.subrange(0, k as int));
    }
    assert(bytes@.subrange(0, bytes@.len() as int) =~= bytes@);
}

/// The bytes written to the PTY for typed or composed `text`: its UTF-8
/// encoding, wrapped as a bracketed paste when the shell asked for
/// bracketed paste and the text holds a non-ASCII character (so the line
/// editor takes composed text whole).
pub fn encode_text_input(text: &str, bracketed_paste: bool) -> (bytes: Vec<u8>)
    ensures
        bytes@ == if bracketed_paste && !vstd::utf8::is_ascii_chars(text@) {
            paste_start() + text.spec_bytes() + paste_end()
        } else {
            text.spec_bytes()
        },
{
    let mut bytes: Vec<u8> = Vec::new();
    if bracketed_paste && !text.is_ascii() {
        let start: [u8; 6] = [0x1b, 0x5b, 0x32, 0x30, 0x30, 0x7e];
        let end: [u8; 6] = [0x1b, 0x5b, 0x32, 0x30, 0x31, 0x7e];
        push_bytes(&mut bytes, &start);
        push_bytes(&mut bytes, text.as_bytes());
        push_bytes(&mut bytes, &end);
        assert(start@ =~= paste_start());
        assert(end@ =~= paste_end());
    } else {
        push_bytes(&mut bytes, text.as_bytes());
        assert(bytes@ =~= text.spec_bytes());
    }
    bytes
}

/// An ASCII letter, digit or `-`.
pub open spec fn is_session_name_byte(b: u8) -> bool {
    (0x30 <= b <= 0x39) || (0x41 <= b <= 0x5a) || (0x61 <= b <= 0x7a) || b == 0x2d
}

/// A screen session name this terminal accepts: non-empty, and only ASCII
/// letters, digits and `-`.
pub fn valid_session_name(name: &str) -> (ok: bool)
    ensures
        ok == (name.spec_bytes().len() > 0 && forall|k: int|
            0 <= k < name.spec_bytes().len() ==> is_session_name_byte(
                #[trigger] name.spec_bytes()[k],
            )),
{
    let bytes = name.as_bytes();
    if bytes.len() == 0 {
        return false;
    }
    let mut k: usize = 0;
    while k < bytes.len()
        invariant
            k <= bytes@.len(),
            bytes@ == name.spec_bytes(),
            forall|j: int| 0 <= j < k ==> is_session_name_byte(#[trigger] bytes@[j]),
        decreases bytes@.len() - k,
    {
        let b = bytes[k];
        if !((b >= 0x30 && b <= 0x39) || (b >= 0x41 && b <= 0x5a) || (b >= 0x61 && b <= 0x7a) || b
            == 0x2d) {
            return false;
        }
        k = k + 1;
    }
    true
}

} // verus!
