//! The grid renderer's pure helpers: the colour a cell paints, the text of
//! a cell, where an IME byte offset falls in a row of cells, and the
//! geometry of box-drawing and block-element glyphs, which the renderer
//! draws as rectangles so they meet across cell edges.

use vstd::prelude::*;
use crate::palette::{channels, hex_channels, palette_rgb, palette_rgb_spec, resolve_spec, TerminalColors};
use crate::terminal::{CellColor, TermCell};
use crate::text::{string_from_chars, utf8_len, utf8_len_of};

verus! {

/// The 0xRRGGBB value of red, green and blue bytes.
pub open spec fn rgb_value(c: Seq<u8>) -> int {
    c[0] * 0x10000 + c[1] * 0x100 + c[2]
}

/// Packs red, green and blue bytes into 0xRRGGBB.
pub fn channels_to_u32(c: [u8; 3]) -> (v: u32)
    ensures
        v == rgb_value(c@),
        hex_channels(v) == c@,
{
    let r = c[0] as u32;
    let g = c[1] as u32;
    let b = c[2] as u32;
    let v = (r << 16) | (g << 8) | b;
    assert(v == r * 0x10000 + g * 0x100 + b) by (bit_vector)
        requires
            v == (r << 16) | (g << 8) | b,
            r < 0x100,
            g < 0x100,
            b < 0x100,
    ;
    assert(hex_channels(v) =~= c@);
    v
}

/// Unpacks 0xRRGGBB into red, green and blue bytes.
pub fn u32_to_channels(color: u32) -> (c: [u8; 3])
    ensures
        c@ == hex_channels(color),
{
    channels(color)
}

/// The renderer's palette: default foreground and background and the
/// sixteen ANSI colours, as 0xRRGGBB.
#[derive(Clone, Copy, Debug)]
pub struct Palette {
    pub fg: u32,
    pub bg: u32,
    pub ansi: [u32; 16],
}

impl Palette {
    /// The palette of the colours `TerminalColors::get` hands out.
    pub fn from_channels(colors: ([u8; 3], [u8; 3], [[u8; 3]; 16])) -> (p: Palette)
        ensures
            hex_channels(p.fg) == colors.0@,
            hex_channels(p.bg) == colors.1@,
            forall|i: int| 0 <= i < 16 ==> hex_channels(#[trigger] p.ansi[i]) == colors.2[i]@,
    {
        let (fg, bg, ansi) = colors;
        let mut out = [0u32; 16];
        let mut i: usize = 0;
        while i < 16
            invariant
                i <= 16,
                forall|k: int| 0 <= k < i ==> hex_channels(#[trigger] out[k]) == ansi[k]@,
            decreases 16 - i,
        {
            out[i] = channels_to_u32(ansi[i]);
            i = i + 1;
        }
        Palette { fg: channels_to_u32(fg), bg: channels_to_u32(bg), ansi: out }
    }
}

/// The colour a cell colour paints with palette `pal`: the default
/// foreground, the given fallback for the default background, a truecolor
/// value as is, the palette's ANSI colours for indices 0–15, and the
/// standard xterm colours for 16–255.
pub open spec fn cell_color_spec(color: CellColor, fallback: Seq<u8>, pal: Palette) -> Seq<u8> {
    match color {
        CellColor::Foreground => hex_channels(pal.fg),
        CellColor::Background => fallback,
        CellColor::Rgb(rgb) => rgb@,
        CellColor::Palette(idx) => if idx < 16 {
            hex_channels(pal.ansi[idx as int])
        } else {
            palette_rgb_spec(idx as int)->0
        },
    }
}

/// The colour `color` paints with palette `pal`, `fallback` standing for
/// the default background.
pub fn cell_color_rgb(color: &CellColor, fallback: [u8; 3], pal: &Palette) -> (c: [u8; 3])
    ensures
        c@ == cell_color_spec(*color, fallback@, *pal),
{
    match color {
        CellColor::Foreground => u32_to_channels(pal.fg),
        CellColor::Background => fallback,
        CellColor::Rgb(rgb) => *rgb,
        CellColor::Palette(idx) => {
            if *idx < 16 {
                u32_to_channels(pal.ansi[*idx as usize])
            } else {
                match palette_rgb(*idx as usize) {
                    Some(rgb) => rgb,
                    None => fallback,
                }
            }
        },
    }
}

/// What a program that probes a colour learns is what the renderer
/// paints: for the palette the renderer builds from the shared colours,
/// every palette index 0–255 paints the colour a query of that index
/// answers, the default foreground paints the answer to query 256, and the
/// default background (painted with the palette's background as fallback)
/// the answer to query 257.
pub proof fn law_queries_match_paint(colors: TerminalColors, pal: Palette)
    requires
        hex_channels(pal.fg) == colors.fg@,
        hex_channels(pal.bg) == colors.bg@,
        forall|i: int| 0 <= i < 16 ==> hex_channels(#[trigger] pal.ansi[i]) == colors.ansi[i]@,
    ensures
        forall|idx: u8|
            #![trigger cell_color_spec(CellColor::Palette(idx), hex_channels(pal.bg), pal)]
            resolve_spec(colors.fg@, colors.bg@, colors.ansi_view(), idx as int) == Some(
                cell_color_spec(CellColor::Palette(idx), hex_channels(pal.bg), pal),
            ),
        resolve_spec(colors.fg@, colors.bg@, colors.ansi_view(), 256) == Some(
            cell_color_spec(CellColor::Foreground, hex_channels(pal.bg), pal),
        ),
        resolve_spec(colors.fg@, colors.bg@, colors.ansi_view(), 257) == Some(
            cell_color_spec(CellColor::Background, hex_channels(pal.bg), pal),
        ),
{
    assert forall|idx: u8|
        #![trigger cell_color_spec(CellColor::Palette(idx), hex_channels(pal.bg), pal)]
        resolve_spec(colors.fg@, colors.bg@, colors.ansi_view(), idx as int) == Some(
            cell_color_spec(CellColor::Palette(idx), hex_channels(pal.bg), pal),
        ) by {
        if idx < 16 {
            assert(colors.ansi_view()[idx as int] == colors.ansi[idx as int]@);
            assert(hex_channels(pal.ansi[idx as int]) == colors.ansi[idx as int]@);
        }
    }
}

/// The text a cell contributes to its row: a blank (and a wide glyph's
/// spacer column, and a missing cell) becomes a no-break space so the
/// monospace grid stays aligned, any other glyph is followed by its
/// zero-width combining characters.
pub open spec fn cell_text(cell: Option<TermCell>) -> Seq<char> {
    match cell {
        Some(c) => if c.wide_spacer {
            seq!['\u{00A0}']
        } else if c.ch == ' ' {
            seq!['\u{00A0}'] + c.zero_width@
        } else {
            seq![c.ch] + c.zero_width@
        },
        None => seq!['\u{00A0}'],
    }
}

/// The text of one cell; see `cell_text`.
pub fn cell_contents(cell: Option<&TermCell>) -> (s: String)
    ensures
        s@ == cell_text(
            match cell {
                Some(c) => Some(*c),
                None => None,
            },
        ),
{
    match cell {
        Some(c) => {
            if c.wide_spacer {
                let out = vec!['\u{00A0}'];
                string_from_chars(&out)
            } else {
                let mut out: Vec<char> = Vec::new();
                if c.ch == ' ' {
                    out.push('\u{00A0}');
                } else {
                    out.push(c.ch);
                }
                let ghost head = out@;
                let mut k: usize = 0;
                while k < c.zero_width.len()
                    invariant
                        k <= c.zero_width@.len(),
                        out@ == head + c.zero_width@.take(k as int),
                    decreases c.zero_width@.len() - k,
                {
                    out.push(c.zero_width[k]);
                    k = k + 1;
                    assert(out@ =~= head + c.zero_width@.take(k as int));
                }
                assert(c.zero_width@.take(c.zero_width@.len() as int) =~= c.zero_width@);
                string_from_chars(&out)
            }
        },
        None => {
            let out = vec!['\u{00A0}'];
            string_from_chars(&out)
        },
    }
}

/// The UTF-8 length of the first `k` texts of `cells`.
pub open spec fn bytes_before(cells: Seq<String>, k: int) -> nat
    decreases k,
{
    if k <= 0 {
        0
    } else {
        bytes_before(cells, k - 1) + utf8_len(cells[k - 1]@)
    }
}

/// Where byte `offset` of a row's joined cell texts falls: the number of
/// cells whose texts, joined, first reach `offset` bytes, or every cell
/// when none do.
pub fn cell_index_at_byte_offset(cells: &Vec<String>, offset: usize) -> (index: usize)
    requires
        bytes_before(cells@, cells@.len() as int) <= usize::MAX,
    ensures
        index <= cells@.len(),
        forall|k: int| 0 <= k < index ==> bytes_before(cells@, k) < offset,
        index < cells@.len() ==> bytes_before(cells@, index as int) >= offset,
{
    let mut bytes: usize = 0;
    let mut index: usize = 0;
    while index < cells.len()
        invariant
            index <= cells@.len(),
            bytes_before(cells@, cells@.len() as int) <= usize::MAX,
            bytes == bytes_before(cells@, index as int),
            forall|k: int| 0 <= k < index ==> bytes_before(cells@, k) < offset,
        decreases cells@.len() - index,
    {
        if bytes >= offset {
            return index;
        }
        proof {
            lemma_bytes_before_monotone(cells@, index + 1, cells@.len() as int);
        }
        bytes = bytes + utf8_len_of(cells[index].as_str());
        if bytes >= offset {
            return index + 1;
        }
        index = index + 1;
    }
    index
}

/// The joined length of a prefix grows with the prefix.
proof fn lemma_bytes_before_monotone(cells: Seq<String>, a: int, b: int)
    requires
        0 <= a <= b,
    ensures
        bytes_before(cells, a) <= bytes_before(cells, b),
    decreases b - a,
{
    if a < b {
        lemma_bytes_before_monotone(cells, a, b - 1);
    }
}

/// How thick a box-drawing line is drawn: light lines one pixel, double
/// lines a pixel and a quarter, heavy lines a pixel and a half, before the
/// renderer snaps them to device pixels.
#[derive(Clone, Copy, PartialEq, Eq, Structural, Debug)]
pub enum StrokeWeight {
    Light,
    Double,
    Heavy,
}

/// A box-drawing glyph: which of its four arms it has (left `0b1000`,
/// down `0b0100`, right `0b0010`, up `0b0001`) and how thick they are.
#[derive(Clone, Copy, PartialEq, Eq, Structural, Debug)]
pub struct BoxDrawing {
    pub mask: u8,
    pub stroke: StrokeWeight,
}

/// The arms of the box-drawing glyph `ch`, if it is one the renderer draws.
pub open spec fn box_mask(ch: char) -> Option<u8> {
    match ch {
        '─' | '━' | '═' => Some(0b1010u8),
        '│' | '┃' | '║' => Some(0b0101u8),
        '┌' | '┏' | '╔' | '╭' => Some(0b0110u8),
        '┐' | '┓' | '╗' | '╮' => Some(0b1100u8),
        '└' | '┗' | '╚' | '╰' => Some(0b0011u8),
        '┘' | '┛' | '╝' | '╯' => Some(0b1001u8),
        '├' | '┣' | '╠' => Some(0b0111u8),
        '┤' | '┫' | '╣' => Some(0b1101u8),
        '┬' | '┳' | '╦' => Some(0b1110u8),
        '┴' | '┻' | '╩' => Some(0b1011u8),
        '┼' | '╋' | '╬' => Some(0b1111u8),
        '╴' => Some(0b0010u8),
        '╶' => Some(0b1000u8),
        '╷' => Some(0b0100u8),
        '╵' => Some(0b0001u8),
        _ => None,
    }
}

/// The line weight of box-drawing glyph `ch`.
pub open spec fn box_stroke(ch: char) -> StrokeWeight {
    match ch {
        '━' | '┃' | '┏' | '┓' | '┗' | '┛' | '┣' | '┫' | '┳' | '┻' | '╋' => StrokeWeight::Heavy,
        '═' | '║' | '╔' | '╗' | '╚' | '╝' | '╠' | '╣' | '╦' | '╩' | '╬' => StrokeWeight::Double,
        _ => StrokeWeight::Light,
    }
}

/// The box-drawing glyph that is `ch` mirrored left to right (`ch` itself
/// for glyphs that are their own mirror image and for other characters).
pub open spec fn mirror_left_right(ch: char) -> char {
    match ch {
        '┌' => '┐', '┐' => '┌', '┏' => '┓', '┓' => '┏', '╔' => '╗', '╗' => '╔',
        '╭' => '╮', '╮' => '╭', '└' => '┘', '┘' => '└', '┗' => '┛', '┛' => '┗',
        '╚' => '╝', '╝' => '╚', '╰' => '╯', '╯' => '╰', '├' => '┤', '┤' => '├',
        '┣' => '┫', '┫' => '┣', '╠' => '╣', '╣' => '╠', '╴' => '╶', '╶' => '╴',
        _ => ch,
    }
}

/// The box-drawing glyph that is `ch` mirrored top to bottom (`ch` itself
/// for glyphs that are their own mirror image and for other characters).
pub open spec fn mirror_top_bottom(ch: char) -> char {
    match ch {
        '┌' => '└', '└' => '┌', '┏' => '┗', '┗' => '┏', '╔' => '╚', '╚' => '╔',
        '╭' => '╰', '╰' => '╭', '┐' => '┘', '┘' => '┐', '┓' => '┛', '┛' => '┓',
        '╗' => '╝', '╝' => '╗', '╮' => '╯', '╯' => '╮', '┬' => '┴', '┴' => '┬',
        '┳' => '┻', '┻' => '┳', '╦' => '╩', '╩' => '╦', '╷' => '╵', '╵' => '╷',
        _ => ch,
    }
}

/// The left (`0b1000`), down (`0b0100`), right (`0b0010`) and up (`0b0001`)
/// arms of a mask, as 0 or 1 each.
pub open spec fn arms(mask: u8) -> (int, int, int, int) {
    let m = mask as int;
    ((m / 8) % 2, (m / 4) % 2, (m / 2) % 2, m % 2)
}

/// Mirroring a box-drawing glyph left to right swaps its left and right
/// arms and keeps its other arms and its weight; mirroring it top to
/// bottom swaps its up and down arms. So every corner, tee and half line
/// has the arms of its mirror images, swapped: `┐` has the left and down
/// arms because `┌` has the right and down ones.
pub proof fn law_box_mirror_images_swap_arms(ch: char)
    ensures
        box_mask(mirror_left_right(ch)) is Some <==> box_mask(ch) is Some,
        box_mask(mirror_top_bottom(ch)) is Some <==> box_mask(ch) is Some,
        box_mask(ch) is Some ==> {
            let (l, d, r, u) = arms(box_mask(ch)->Some_0);
            &&& arms(box_mask(mirror_left_right(ch))->Some_0) == (r, d, l, u)
            &&& arms(box_mask(mirror_top_bottom(ch))->Some_0) == (l, u, r, d)
            &&& box_stroke(mirror_left_right(ch)) == box_stroke(ch)
            &&& box_stroke(mirror_top_bottom(ch)) == box_stroke(ch)
        },
{
}

/// The straight lines and the top-left corner have the arms their shapes
/// show: `─` left and right, `│` up and down, `┌` right and down; with the
/// mirror law this fixes every corner.
pub proof fn law_box_lines_and_corner_arms()
    ensures
        arms(box_mask('─')->Some_0) == (1int, 0int, 1int, 0int),
        arms(box_mask('│')->Some_0) == (0int, 1int, 0int, 1int),
        arms(box_mask('┌')->Some_0) == (0int, 1int, 1int, 0int),
        arms(box_mask('┼')->Some_0) == (1int, 1int, 1int, 1int),
{
}

/// The arms and weight of box-drawing glyph `ch`, or `None` for a
/// character the renderer leaves to the font.
pub fn box_drawing(ch: char) -> (r: Option<BoxDrawing>)
    ensures
        r == match box_mask(ch) {
            Some(mask) => Some(BoxDrawing { mask, stroke: box_stroke(ch) }),
            None => None,
        },
{
    let mask: u8 = match ch {
        '─' | '━' | '═' => 0b1010,
        '│' | '┃' | '║' => 0b0101,
        '┌' | '┏' | '╔' | '╭' => 0b0110,
        '┐' | '┓' | '╗' | '╮' => 0b1100,
        '└' | '┗' | '╚' | '╰' => 0b0011,
        '┘' | '┛' | '╝' | '╯' => 0b1001,
        '├' | '┣' | '╠' => 0b0111,
        '┤' | '┫' | '╣' => 0b1101,
        '┬' | '┳' | '╦' => 0b1110,
        '┴' | '┻' | '╩' => 0b1011,
        '┼' | '╋' | '╬' => 0b1111,
        '╴' => 0b0010,
        '╶' => 0b1000,
        '╷' => 0b0100,
        '╵' => 0b0001,
        _ => {
            return None;
        },
    };
    let stroke = match ch {
        '━' | '┃' | '┏' | '┓' | '┗' | '┛' | '┣' | '┫' | '┳' | '┻' | '╋' => StrokeWeight::Heavy,
        '═' | '║' | '╔' | '╗' | '╚' | '╝' | '╠' | '╣' | '╦' | '╩' | '╬' => StrokeWeight::Double,
        _ => StrokeWeight::Light,
    };
    Some(BoxDrawing { mask, stroke })
}

/// A rectangle of a block element, in eighths of the cell from its
/// top-left corner.
#[derive(Clone, Copy, PartialEq, Eq, Structural, Debug)]
pub struct BlockRect {
    pub left: u8,
    pub top: u8,
    pub right: u8,
    pub bottom: u8,
}

/// Up to three rectangles of a block element; the first `count` are used.
#[derive(Clone, Copy, Debug)]
pub struct BlockShape {
    pub rects: [BlockRect; 3],
    pub count: usize,
}

/// The rectangle with the given edges.
pub open spec fn rect_spec(left: u8, top: u8, right: u8, bottom: u8) -> BlockRect {
    BlockRect { left, top, right, bottom }
}

/// The rectangles of block element `ch`, if it is one the renderer draws.
pub open spec fn block_rects(ch: char) -> Option<Seq<BlockRect>> {
    match ch {
        '█' => Some(seq![rect_spec(0, 0, 8, 8)]),
        '▀' => Some(seq![rect_spec(0, 0, 8, 4)]),
        '▄' => Some(seq![rect_spec(0, 4, 8, 8)]),
        '▌' => Some(seq![rect_spec(0, 0, 4, 8)]),
        '▐' => Some(seq![rect_spec(4, 0, 8, 8)]),
        '▏' => Some(seq![rect_spec(0, 0, 1, 8)]),
        '▎' => Some(seq![rect_spec(0, 0, 2, 8)]),
        '▍' => Some(seq![rect_spec(0, 0, 3, 8)]),
        '▋' => Some(seq![rect_spec(0, 0, 5, 8)]),
        '▊' => Some(seq![rect_spec(0, 0, 6, 8)]),
        '▉' => Some(seq![rect_spec(0, 0, 7, 8)]),
        '▕' => Some(seq![rect_spec(7, 0, 8, 8)]),
        '▁' => Some(seq![rect_spec(0, 7, 8, 8)]),
        '▂' => Some(seq![rect_spec(0, 6, 8, 8)]),
        '▃' => Some(seq![rect_spec(0, 5, 8, 8)]),
        '▅' => Some(seq![rect_spec(0, 3, 8, 8)]),
        '▆' => Some(seq![rect_spec(0, 2, 8, 8)]),
        '▇' => Some(seq![rect_spec(0, 1, 8, 8)]),
        '▔' => Some(seq![rect_spec(0, 0, 8, 1)]),
        '▖' => Some(seq![rect_spec(0, 4, 4, 8)]),
        '▗' => Some(seq![rect_spec(4, 4, 8, 8)]),
        '▘' => Some(seq![rect_spec(0, 0, 4, 4)]),
        '▝' => Some(seq![rect_spec(4, 0, 8, 4)]),
        '▚' => Some(seq![rect_spec(0, 0, 4, 4), rect_spec(4, 4, 8, 8)]),
        '▞' => Some(seq![rect_spec(4, 0, 8, 4), rect_spec(0, 4, 4, 8)]),
        '▙' => Some(seq![rect_spec(0, 0, 4, 4), rect_spec(0, 4, 4, 8), rect_spec(4, 4, 8, 8)]),
        '▛' => Some(seq![rect_spec(0, 0, 4, 4), rect_spec(4, 0, 8, 4), rect_spec(0, 4, 4, 8)]),
        '▜' => Some(seq![rect_spec(4, 0, 8, 4), rect_spec(0, 4, 4, 8), rect_spec(4, 4, 8, 8)]),
        '▟' => Some(seq![rect_spec(0, 0, 4, 4), rect_spec(4, 0, 8, 4), rect_spec(4, 4, 8, 8)]),
        _ => None,
    }
}

/// Every rectangle of a block element lies within its cell and is not
/// empty, so the rectangles the renderer draws from adjacent cells meet at
/// the shared cell edges.
pub proof fn law_block_rects_within_cell(ch: char)
    ensures
        block_rects(ch) matches Some(rs) ==> 1 <= rs.len() <= 3 && forall|i: int|
            0 <= i < rs.len() ==> {
                let r = #[trigger] rs[i];
                &&& r.left < r.right <= 8
                &&& r.top < r.bottom <= 8
            },
{
}

/// The rectangle with the given edges.
fn rect(left: u8, top: u8, right: u8, bottom: u8) -> (r: BlockRect)
    ensures
        r == rect_spec(left, top, right, bottom),
{
    BlockRect { left, top, right, bottom }
}

/// A shape of one rectangle.
fn one(a: BlockRect) -> (s: BlockShape)
    ensures
        s.count == 1,
        s.rects@ == seq![a, rect_spec(0, 0, 0, 0), rect_spec(0, 0, 0, 0)],
{
    let e = rect(0, 0, 0, 0);
    let s = BlockShape { rects: [a, e, e], count: 1 };
    assert(s.rects@ =~= seq![a, e, e]);
    s
}

/// A shape of two rectangles.
fn two(a: BlockRect, b: BlockRect) -> (s: BlockShape)
    ensures
        s.count == 2,
        s.rects@ == seq![a, b, rect_spec(0, 0, 0, 0)],
{
    let e = rect(0, 0, 0, 0);
    let s = BlockShape { rects: [a, b, e], count: 2 };
    assert(s.rects@ =~= seq![a, b, e]);
    s
}

/// A shape of three rectangles.
fn three(a: BlockRect, b: BlockRect, c: BlockRect) -> (s: BlockShape)
    ensures
        s.count == 3,
        s.rects@ == seq![a, b, c],
{
    let s = BlockShape { rects: [a, b, c], count: 3 };
    assert(s.rects@ =~= seq![a, b, c]);
    s
}

/// The rectangles of block element `ch` (the used ones first, the rest
/// empty), or `None` for a character the renderer leaves to the font.
pub fn block_shape(ch: char) -> (r: Option<BlockShape>)
    ensures
        block_rects(ch) is None ==> r is None,
        block_rects(ch) matches Some(rs) ==> r matches Some(s) && s.count == rs.len()
            && s.rects@.take(s.count as int) == rs && forall|i: int|
            s.count <= i < 3 ==> #[trigger] s.rects@[i] == rect_spec(0, 0, 0, 0),
{
    let s = match ch {
        '█' => one(rect(0, 0, 8, 8)),
        '▀' => one(rect(0, 0, 8, 4)),
        '▄' => one(rect(0, 4, 8, 8)),
        '▌' => one(rect(0, 0, 4, 8)),
        '▐' => one(rect(4, 0, 8, 8)),
        '▏' => one(rect(0, 0, 1, 8)),
        '▎' => one(rect(0, 0, 2, 8)),
        '▍' => one(rect(0, 0, 3, 8)),
        '▋' => one(rect(0, 0, 5, 8)),
        '▊' => one(rect(0, 0, 6, 8)),
        '▉' => one(rect(0, 0, 7, 8)),
        '▕' => one(rect(7, 0, 8, 8)),
        '▁' => one(rect(0, 7, 8, 8)),
        '▂' => one(rect(0, 6, 8, 8)),
        '▃' => one(rect(0, 5, 8, 8)),
        '▅' => one(rect(0, 3, 8, 8)),
        '▆' => one(rect(0, 2, 8, 8)),
        '▇' => one(rect(0, 1, 8, 8)),
        '▔' => one(rect(0, 0, 8, 1)),
        '▖' => one(rect(0, 4, 4, 8)),
        '▗' => one(rect(4, 4, 8, 8)),
        '▘' => one(rect(0, 0, 4, 4)),
        '▝' => one(rect(4, 0, 8, 4)),
        '▚' => two(rect(0, 0, 4, 4), rect(4, 4, 8, 8)),
        '▞' => two(rect(4, 0, 8, 4), rect(0, 4, 4, 8)),
        '▙' => three(rect(0, 0, 4, 4), rect(0, 4, 4, 8), rect(4, 4, 8, 8)),
        '▛' => three(rect(0, 0, 4, 4), rect(4, 0, 8, 4), rect(0, 4, 4, 8)),
        '▜' => three(rect(4, 0, 8, 4), rect(0, 4, 4, 8), rect(4, 4, 8, 8)),
        '▟' => three(rect(0, 0, 4, 4), rect(4, 0, 8, 4), rect(4, 4, 8, 8)),
        _ => {
            return None;
        },
    };
    assert(s.rects@.take(s.count as int) =~= block_rects(ch)->0);
    Some(s)
}

} // verus!
