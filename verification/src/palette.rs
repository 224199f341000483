//! The xterm colour palette the terminal renders with, and the colour
//! table that answers OSC colour queries.

use vstd::prelude::*;

verus! {

/// Default foreground of the terminal surface (0xRRGGBB).
pub const TERMINAL_FG: u32 = 0xe8e8e8;

/// Default background of the terminal surface (0xRRGGBB).
pub const TERMINAL_BG: u32 = 0x0d0d0d;

/// The sixteen fixed xterm-standard ANSI colours, as 0xRRGGBB.
pub open spec fn standard_ansi_spec(index: int) -> u32 {
    if index == 0 { 0x000000 }
    else if index == 1 { 0xcd0000 }
    else if index == 2 { 0x00cd00 }
    else if index == 3 { 0xcdcd00 }
    else if index == 4 { 0x0000ee }
    else if index == 5 { 0xcd00cd }
    else if index == 6 { 0x00cdcd }
    else if index == 7 { 0xe5e5e5 }
    else if index == 8 { 0x7f7f7f }
    else if index == 9 { 0xff0000 }
    else if index == 10 { 0x00ff00 }
    else if index == 11 { 0xffff00 }
    else if index == 12 { 0x5c5cff }
    else if index == 13 { 0xff00ff }
    else if index == 14 { 0x00ffff }
    else { 0xffffff }
}

/// Entry `index` (0..=15) of the standard ANSI palette.
pub fn standard_ansi(index: usize) -> (hex: u32)
    requires
        index < 16,
    ensures
        hex == standard_ansi_spec(index as int),
{
    match index {
        0 => 0x000000,
        1 => 0xcd0000,
        2 => 0x00cd00,
        3 => 0xcdcd00,
        4 => 0x0000ee,
        5 => 0xcd00cd,
        6 => 0x00cdcd,
        7 => 0xe5e5e5,
        8 => 0x7f7f7f,
        9 => 0xff0000,
        10 => 0x00ff00,
        11 => 0xffff00,
        12 => 0x5c5cff,
        13 => 0xff00ff,
        14 => 0x00ffff,
        _ => 0xffffff,
    }
}

/// The red, green and blue bytes of a 0xRRGGBB value.
pub open spec fn hex_channels(hex: u32) -> Seq<u8> {
    seq![((hex / 0x10000) % 0x100) as u8, ((hex / 0x100) % 0x100) as u8, (hex % 0x100) as u8]
}

/// Splits a 0xRRGGBB value into its red, green and blue bytes.
pub fn channels(hex: u32) -> (rgb: [u8; 3])
    ensures
        rgb@ == hex_channels(hex),
{
    let r = (hex >> 16) as u8;
    let g = (hex >> 8) as u8;
    let b = hex as u8;
    assert(r == ((hex / 0x10000) % 0x100) as u8) by (bit_vector)
        requires r == (hex >> 16) as u8;
    assert(g == ((hex / 0x100) % 0x100) as u8) by (bit_vector)
        requires g == (hex >> 8) as u8;
    assert(b == (hex % 0x100) as u8) by (bit_vector)
        requires b == hex as u8;
    let rgb = [r, g, b];
    assert(rgb@ =~= hex_channels(hex));
    rgb
}

/// What `palette_rgb` gives for `index`: the standard colours for 0..=15,
/// the 6x6x6 colour cube for 16..=231, the grayscale ramp 8..=238 in steps
/// of 10 for 232..=255, and nothing beyond.
pub open spec fn palette_rgb_spec(index: int) -> Option<Seq<u8>> {
    if 0 <= index <= 15 {
        Some(hex_channels(standard_ansi_spec(index)))
    } else if 16 <= index <= 231 {
        let i = index - 16;
        Some(seq![(((i / 36) % 6) * 51) as u8, (((i / 6) % 6) * 51) as u8, ((i % 6) * 51) as u8])
    } else if 232 <= index <= 255 {
        let v = ((index - 232) * 10 + 8) as u8;
        Some(seq![v, v, v])
    } else {
        None
    }
}

/// RGB channels for any xterm palette index (0–15 named, 16–231 colour
/// cube, 232–255 grayscale) exactly as the renderer displays it. Returns
/// `None` outside 0..=255.
pub fn palette_rgb(index: usize) -> (rgb: Option<[u8; 3]>)
    ensures
        rgb is Some <==> index <= 255,
        rgb matches Some(c) ==> palette_rgb_spec(index as int) == Some(c@),
{
    if index <= 15 {
        Some(channels(standard_ansi(index)))
    } else if index <= 231 {
        let i = index - 16;
        let b = ((i % 6) * 51) as u8;
        let g = (((i / 6) % 6) * 51) as u8;
        let r = (((i / 36) % 6) * 51) as u8;
        assert((i / 6) / 6 == i / 36) by (nonlinear_arith);
        let rgb = [r, g, b];
        assert(rgb@ =~= palette_rgb_spec(index as int)->0);
        Some(rgb)
    } else if index <= 255 {
        let v = ((index - 232) * 10 + 8) as u8;
        let rgb = [v, v, v];
        assert(rgb@ =~= palette_rgb_spec(index as int)->0);
        Some(rgb)
    } else {
        None
    }
}


/// Half of each channel, the dim variant of a colour.
pub open spec fn halved(c: Seq<u8>) -> Seq<u8> {
    seq![c[0] / 2, c[1] / 2, c[2] / 2]
}

/// What `fallback_color_rgb` gives: the palette for 0..=255, the default
/// foreground for 256 and 267, the default background for 257 and 268,
/// the halved standard colour for the dim indices 259..=266, and nothing
/// for any other index (258, the cursor, among them).
pub open spec fn fallback_color_spec(index: int) -> Option<Seq<u8>> {
    if 0 <= index <= 255 {
        palette_rgb_spec(index)
    } else if index == 256 || index == 267 {
        Some(hex_channels(TERMINAL_FG))
    } else if index == 257 || index == 268 {
        Some(hex_channels(TERMINAL_BG))
    } else if 259 <= index <= 266 {
        Some(halved(hex_channels(standard_ansi_spec(index - 259))))
    } else {
        None
    }
}

/// Resolves an OSC colour-query index to the exact RGB rendered, using the
/// pseudo-indices of the emulator's colour table (256 = foreground, 257 =
/// background, 259+ = dim variants). Returns `None` for indices with no
/// meaningful answer (e.g. the cursor colour).
pub fn fallback_color_rgb(index: usize) -> (rgb: Option<[u8; 3]>)
    ensures
        fallback_color_spec(index as int) matches Some(c) ==> rgb matches Some(r) && r@ == c,
        fallback_color_spec(index as int) is None ==> rgb is None,
{
    if index <= 255 {
        palette_rgb(index)
    } else if index == 256 || index == 267 {
        Some(channels(TERMINAL_FG))
    } else if index == 257 || index == 268 {
        Some(channels(TERMINAL_BG))
    } else if index >= 259 && index <= 266 {
        match palette_rgb(index - 259) {
            Some(c) => {
                let rgb = [c[0] / 2, c[1] / 2, c[2] / 2];
                assert(rgb@ =~= halved(c@));
                Some(rgb)
            },
            None => None,
        }
    } else {
        None
    }
}

/// The default foreground, background and ANSI 0–15 palette that child
/// programs see and the renderer paints with. The application shares one
/// value of it between the OSC query responder and the renderer, so they
/// never disagree; a theme switch sets it for running terminals.
#[derive(Clone, Copy, PartialEq, Eq, Debug)]
pub struct TerminalColors {
    pub fg: [u8; 3],
    pub bg: [u8; 3],
    pub ansi: [[u8; 3]; 16],
}

/// What `TerminalColors::resolve` gives for `index` with foreground `fg`,
/// background `bg` and ANSI palette `ansi`: the live palette for 0..=15,
/// the standard cube and grayscale ramp for 16..=255, the live default
/// colours for 256/267 and 257/268, half the live ANSI colour for the dim
/// indices 259..=266, and nothing otherwise.
pub open spec fn resolve_spec(fg: Seq<u8>, bg: Seq<u8>, ansi: Seq<Seq<u8>>, index: int) -> Option<
    Seq<u8>,
> {
    if 0 <= index <= 15 {
        Some(ansi[index])
    } else if 16 <= index <= 255 {
        palette_rgb_spec(index)
    } else if index == 256 || index == 267 {
        Some(fg)
    } else if index == 257 || index == 268 {
        Some(bg)
    } else if 259 <= index <= 266 {
        Some(halved(ansi[index - 259]))
    } else {
        None
    }
}

impl TerminalColors {
    /// The live ANSI palette, as sequences of channels.
    pub open spec fn ansi_view(&self) -> Seq<Seq<u8>> {
        self.ansi@.map_values(|c: [u8; 3]| c@)
    }

    /// A palette with the given default colours and ANSI 0–15.
    pub fn new(fg: [u8; 3], bg: [u8; 3], ansi: [[u8; 3]; 16]) -> (c: Self)
        ensures
            c.fg == fg,
            c.bg == bg,
            c.ansi == ansi,
    {
        TerminalColors { fg, bg, ansi }
    }

    /// The built-in fixed dark palette, used until a theme is injected.
    pub fn dark() -> (c: Self)
        ensures
            c.fg@ == hex_channels(TERMINAL_FG),
            c.bg@ == hex_channels(TERMINAL_BG),
            forall|i: int| 0 <= i < 16 ==> (#[trigger] c.ansi[i])@ == hex_channels(
                standard_ansi_spec(i),
            ),
    {
        let mut ansi = [[0u8; 3]; 16];
        let mut i: usize = 0;
        while i < 16
            invariant
                i <= 16,
                forall|k: int| 0 <= k < i ==> (#[trigger] ansi[k])@ == hex_channels(
                    standard_ansi_spec(k),
                ),
            decreases 16 - i,
        {
            ansi[i] = channels(standard_ansi(i));
            i = i + 1;
        }
        TerminalColors::new(channels(TERMINAL_FG), channels(TERMINAL_BG), ansi)
    }

    /// Replaces the default colours and the ANSI palette.
    pub fn set(&mut self, fg: [u8; 3], bg: [u8; 3], ansi: [[u8; 3]; 16])
        ensures
            final(self).fg == fg,
            final(self).bg == bg,
            final(self).ansi == ansi,
    {
        self.fg = fg;
        self.bg = bg;
        self.ansi = ansi;
    }

    /// The default foreground, background and ANSI palette.
    pub fn get(&self) -> (r: ([u8; 3], [u8; 3], [[u8; 3]; 16]))
        ensures
            r == (self.fg, self.bg, self.ansi),
    {
        (self.fg, self.bg, self.ansi)
    }

    /// Resolves an OSC colour-query index against the live palette. Cube
    /// (16–231) and grayscale (232–255) ramps stay xterm-standard.
    pub fn resolve(&self, index: usize) -> (rgb: Option<[u8; 3]>)
        ensures
            resolve_spec(self.fg@, self.bg@, self.ansi_view(), index as int) matches Some(c)
                ==> rgb matches Some(r) && r@ == c,
            resolve_spec(self.fg@, self.bg@, self.ansi_view(), index as int) is None ==> rgb is None,
    {
        if index <= 15 {
            Some(self.ansi[index])
        } else if index <= 255 {
            palette_rgb(index)
        } else if index == 256 || index == 267 {
            Some(self.fg)
        } else if index == 257 || index == 268 {
            Some(self.bg)
        } else if index >= 259 && index <= 266 {
            let c = self.ansi[index - 259];
            let rgb = [c[0] / 2, c[1] / 2, c[2] / 2];
            assert(rgb@ =~= halved(c@));
            Some(rgb)
        } else {
            None
        }
    }
}

/// A theme switch applies at once: the palette `set` leaves behind is what
/// `get` hands back, and every query resolves against it.
pub proof fn law_set_then_resolve(
    c: TerminalColors,
    fg: [u8; 3],
    bg: [u8; 3],
    ansi: [[u8; 3]; 16],
    index: int,
)
    requires
        c.fg == fg,
        c.bg == bg,
        c.ansi == ansi,
    ensures
        (c.fg, c.bg, c.ansi) == (fg, bg, ansi),
        resolve_spec(c.fg@, c.bg@, c.ansi_view(), index) == resolve_spec(
            fg@,
            bg@,
            ansi@.map_values(|a: [u8; 3]| a@),
            index,
        ),
{
}

/// With the built-in dark palette, resolving a query index gives the same
/// colour as the fixed fallback table.
pub proof fn law_dark_resolves_like_fallback(c: TerminalColors, index: int)
    requires
        c.fg@ == hex_channels(TERMINAL_FG),
        c.bg@ == hex_channels(TERMINAL_BG),
        forall|i: int| 0 <= i < 16 ==> (#[trigger] c.ansi[i])@ == hex_channels(
            standard_ansi_spec(i),
        ),
    ensures
        resolve_spec(c.fg@, c.bg@, c.ansi_view(), index) == fallback_color_spec(index),
{
    if 0 <= index <= 15 {
        assert(c.ansi_view()[index] == c.ansi[index]@);
    }
    if 259 <= index <= 266 {
        assert(c.ansi_view()[index - 259] == c.ansi[index - 259]@);
    }
}

/// The answer to an OSC colour query for `index`: a colour the running
/// program set for that index wins, else the live palette answers.
pub fn answer_color_query(app_set: Option<[u8; 3]>, colors: &TerminalColors, index: usize) -> (rgb:
    Option<[u8; 3]>)
    ensures
        app_set is Some ==> rgb == app_set,
        app_set is None ==> (resolve_spec(colors.fg@, colors.bg@, colors.ansi_view(), index as int)
            matches Some(c) ==> rgb matches Some(r) && r@ == c),
        app_set is None ==> (resolve_spec(colors.fg@, colors.bg@, colors.ansi_view(), index as int)
            is None ==> rgb is None),
{
    match app_set {
        Some(c) => Some(c),
        None => colors.resolve(index),
    }
}

} // verus!
