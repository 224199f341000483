//! The colour themes of the application: each is a set of 0xRRGGBB
//! colours for the chrome and the sixteen ANSI colours of the terminal.

use vstd::prelude::*;
use crate::palette::{channels, hex_channels, TerminalColors};
use crate::text::{char_to_uppercase, chars_of, str_eq, string_from_chars, uppercase_of};

verus! {

/// A colour theme, every colour as 0xRRGGBB.
#[derive(Clone, Copy, Debug)]
pub struct Theme {
    pub bg_main: u32,
    pub bg_sidebar: u32,
    pub bg_tab_active: u32,
    pub bg_tab_inactive: u32,
    pub border: u32,
    pub text_primary: u32,
    pub text_muted: u32,
    pub accent: u32,
    pub ansi: [u32; 16],
}

/// A theme's colours, the ANSI palette as a sequence.
pub struct ThemeView {
    pub bg_main: u32,
    pub bg_sidebar: u32,
    pub bg_tab_active: u32,
    pub bg_tab_inactive: u32,
    pub border: u32,
    pub text_primary: u32,
    pub text_muted: u32,
    pub accent: u32,
    pub ansi: Seq<u32>,
}

impl View for Theme {
    type V = ThemeView;

    open spec fn view(&self) -> ThemeView {
        ThemeView {
            bg_main: self.bg_main,
            bg_sidebar: self.bg_sidebar,
            bg_tab_active: self.bg_tab_active,
            bg_tab_inactive: self.bg_tab_inactive,
            border: self.border,
            text_primary: self.text_primary,
            text_muted: self.text_muted,
            accent: self.accent,
            ansi: self.ansi@,
        }
    }
}

/// The theme view with the given colours.
pub open spec fn palette_view(
    bg_main: u32,
    bg_sidebar: u32,
    bg_tab_active: u32,
    bg_tab_inactive: u32,
    border: u32,
    text_primary: u32,
    text_muted: u32,
    accent: u32,
    ansi: Seq<u32>,
) -> ThemeView {
    ThemeView {
        bg_main,
        bg_sidebar,
        bg_tab_active,
        bg_tab_inactive,
        border,
        text_primary,
        text_muted,
        accent,
        ansi,
    }
}


/// The colours of the `light` theme.
pub open spec fn light_palette() -> ThemeView {
    palette_view(
        0xf7f8fa,
        0xedf0f3,
        0xffffff,
        0xe3e7eb,
        0xd1d7de,
        0x1f2328,
        0x656d76,
        0x0969da,
        seq![
            0x24292f, 0xcf222e, 0x1a7f37, 0x9a6700, 0x0969da, 0x8250df, 0x1b7c83, 0x6e7781,
            0x57606a, 0xa40e26, 0x116329, 0x7d4e00, 0x218bff, 0x8250df, 0x3192aa, 0x8c959f,
        ],
    )
}


/// The colours of the `midnight` theme.
pub open spec fn midnight_palette() -> ThemeView {
    palette_view(
        0x141827,
        0x0f1220,
        0x141827,
        0x20263a,
        0x303852,
        0xe4e7f2,
        0x9098b8,
        0x8ea7ff,
        seq![
            0x1a1e2e, 0xff6b81, 0x7ed6a5, 0xf2c97d, 0x8ea7ff, 0xc6a0f6, 0x7dd8d3, 0xd5d9e5,
            0x59617a, 0xff8fa0, 0x9ae6bc, 0xffdda0, 0xb1c2ff, 0xdabfff, 0x9af2ec, 0xffffff,
        ],
    )
}


/// The colours of the `ocean` theme.
pub open spec fn ocean_palette() -> ThemeView {
    palette_view(
        0x10202a,
        0x0d1a22,
        0x10202a,
        0x18323e,
        0x28505e,
        0xd6f0f0,
        0x7ea5ad,
        0x4fd1c5,
        seq![
            0x102b36, 0xff6b6b, 0x8bd49c, 0xe9c46a, 0x5aa9e6, 0xc084d6, 0x4fd1c5, 0xc8e6e6,
            0x42606b, 0xff9696, 0xa9e8b7, 0xf4d58a, 0x86c7ff, 0xe0a5ef, 0x83ebe3, 0xf2ffff,
        ],
    )
}


/// The colours of the `forest` theme.
pub open spec fn forest_palette() -> ThemeView {
    palette_view(
        0x17201a,
        0x101711,
        0x17201a,
        0x233126,
        0x354735,
        0xdce8dc,
        0x8fa28e,
        0x8fcf72,
        seq![
            0x202b22, 0xeb6f6f, 0x8fcf72, 0xe3c477, 0x7ab8d8, 0xc39bd3, 0x72c9bc, 0xd3ded2,
            0x536356, 0xff9494, 0xa9e58e, 0xf1d99a, 0x9bcdf0, 0xddb8e7, 0x91e8da, 0xf2fff0,
        ],
    )
}


/// The colours of the `rose` theme.
pub open spec fn rose_palette() -> ThemeView {
    palette_view(
        0x21171d,
        0x180f15,
        0x21171d,
        0x30212a,
        0x49313d,
        0xf2e1e8,
        0xb49aa8,
        0xf08cae,
        seq![
            0x281c24, 0xf06c8b, 0x9dcc82, 0xe7c57b, 0x8fb8e8, 0xd2a0dc, 0x7fc8c5, 0xe9dce2,
            0x66505e, 0xff93ac, 0xb7e49b, 0xf4d998, 0xb0d0ff, 0xe9b8ec, 0x9be7e0, 0xffffff,
        ],
    )
}


/// The colours of the `paper` theme.
pub open spec fn paper_palette() -> ThemeView {
    palette_view(
        0xfbf8f2,
        0xf1ece2,
        0xfffdf8,
        0xe8e0d3,
        0xd7cbbb,
        0x3a332b,
        0x85776a,
        0xb45f28,
        seq![
            0x3a332b, 0xb33a3a, 0x4f7d3a, 0x9a6a16, 0x356aa0, 0x8654a8, 0x287f7a, 0x8e857a,
            0x6b6259, 0xd05353, 0x72a95a, 0xc18c29, 0x5f91c9, 0xa978c5, 0x48aaa2, 0xfffdf8,
        ],
    )
}


/// The colours of the `lavender` theme.
pub open spec fn lavender_palette() -> ThemeView {
    palette_view(
        0xf7f4ff,
        0xeee9fb,
        0xffffff,
        0xe7def7,
        0xd4c5eb,
        0x352e42,
        0x847a98,
        0x7957c8,
        seq![
            0x352e42, 0xc4475a, 0x4d8a62, 0xa26f19, 0x526ebd, 0x7957c8, 0x3d8c8c, 0x82798f,
            0x675d72, 0xe15e73, 0x72b887, 0xc18d32, 0x718edc, 0x9b7ce8, 0x5bb8b5, 0xffffff,
        ],
    )
}


/// The colours of the `sand` theme.
pub open spec fn sand_palette() -> ThemeView {
    palette_view(
        0xf8f3e8,
        0xeee5d5,
        0xfcf8ef,
        0xe4d7c2,
        0xd2c1a6,
        0x40372d,
        0x8c7b68,
        0xb86b3e,
        seq![
            0x40372d, 0xb64945, 0x5c873f, 0xa57422, 0x4f79a8, 0x8b5ca8, 0x3d8580, 0x8e8373,
            0x6b5d4e, 0xd8665f, 0x82aa5d, 0xc99a3b, 0x7099c8, 0xb27bc6, 0x5aada5, 0xfff9ec,
        ],
    )
}


/// The colours of the `high_contrast` theme.
pub open spec fn high_contrast_palette() -> ThemeView {
    palette_view(
        0x000000,
        0x080808,
        0x000000,
        0x1b1b1b,
        0x777777,
        0xffffff,
        0xc8c8c8,
        0x00e5ff,
        seq![
            0x000000, 0xff3333, 0x33ff66, 0xffff33, 0x3399ff, 0xff66ff, 0x33ffff, 0xffffff,
            0x888888, 0xff7777, 0x77ff99, 0xffff77, 0x77bbff, 0xff99ff, 0x77ffff, 0xffffff,
        ],
    )
}


/// The colours of the `one_light` theme.
pub open spec fn one_light_palette() -> ThemeView {
    palette_view(
        0xfafafa,
        0xf3f3f3,
        0xfafafa,
        0xe5e5e6,
        0xd0d0d0,
        0x383a42,
        0xa0a1a7,
        0x4078f2,
        seq![
            0x383a42, 0xe45649, 0x50a14f, 0xc18401, 0x4078f2, 0xa626a4, 0x0184bb, 0xfafafa,
            0x696c77, 0xf44747, 0x2d9d35, 0xd19a66, 0x709dff, 0xd16bca, 0x00a7aa, 0xffffff,
        ],
    )
}


/// The colours of the `vscode_light_plus` theme.
pub open spec fn vscode_light_plus_palette() -> ThemeView {
    palette_view(
        0xffffff,
        0xf3f3f3,
        0xffffff,
        0xe7e7e7,
        0xd4d4d4,
        0x333333,
        0x6a737d,
        0x0066bf,
        seq![
            0x000000, 0xcd3131, 0x008000, 0x795e26, 0x0451a5, 0xaf00db, 0x267f99, 0x666666,
            0x808080, 0xcd3131, 0x14ce14, 0xb89500, 0x0451a5, 0xbc05bc, 0x2aa1ae, 0xffffff,
        ],
    )
}


/// The colours of the `vscode_quiet_light` theme.
pub open spec fn vscode_quiet_light_palette() -> ThemeView {
    palette_view(
        0xf5f5f5,
        0xeeeeee,
        0xf5f5f5,
        0xe3e3e3,
        0xd5d5d5,
        0x333333,
        0x7a7a7a,
        0x2f6f9f,
        seq![
            0x333333, 0xaa3731, 0x448c27, 0xcb9000, 0x2f6f9f, 0x7a3e9d, 0x3d8b8b, 0x777777,
            0x666666, 0xf05050, 0x61c554, 0xfacb43, 0x5d9bcf, 0xad7fa8, 0x6fc2c2, 0xffffff,
        ],
    )
}


/// The colours of the `solarized_light` theme.
pub open spec fn solarized_light_palette() -> ThemeView {
    palette_view(
        0xfdf6e3,
        0xf5efdc,
        0xfdf6e3,
        0xeee8d5,
        0xe1d8c1,
        0x657b83,
        0x93a1a1,
        0x268bd2,
        seq![
            0x073642, 0xdc322f, 0x859900, 0xb58900, 0x268bd2, 0xd33682, 0x2aa198, 0xeee8d5,
            0x002b36, 0xcb4b16, 0x586e75, 0x657b83, 0x839496, 0x6c71c4, 0x93a1a1, 0xfdf6e3,
        ],
    )
}


/// The colours of the `vscode_dark_plus` theme.
pub open spec fn vscode_dark_plus_palette() -> ThemeView {
    palette_view(
        0x1e1e1e,
        0x252526,
        0x1e1e1e,
        0x333333,
        0x3c3c3c,
        0xd4d4d4,
        0x969696,
        0x007acc,
        seq![
            0x000000, 0xcd3131, 0x0dbc79, 0xe5e510, 0x2472c8, 0xbc3fbc, 0x11a8cd, 0xe5e5e5,
            0x666666, 0xcd3131, 0x23d18b, 0xf5f543, 0x3b8eea, 0xd670d6, 0x29b8db, 0xffffff,
        ],
    )
}


/// The colours of the `vscode_abyss` theme.
pub open spec fn vscode_abyss_palette() -> ThemeView {
    palette_view(
        0x000c18,
        0x001521,
        0x000c18,
        0x032b3d,
        0x06445a,
        0x6688a3,
        0x456579,
        0x75beff,
        seq![
            0x000000, 0xff6c8b, 0x9fe463, 0xffd75f, 0x75beff, 0x9f7fff, 0x75e6da, 0xd5e5f5,
            0x405570, 0xff8fa3, 0xb5ef80, 0xffe58a, 0x9cc9ff, 0xc0a4ff, 0x9af2e9, 0xffffff,
        ],
    )
}


/// The colours of the `ubuntu` theme.
pub open spec fn ubuntu_palette() -> ThemeView {
    palette_view(
        0x300a24,
        0x2a081f,
        0x300a24,
        0x401030,
        0x501c3d,
        0xffffff,
        0xcccccc,
        0xe95420,
        seq![
            0x2e3436, 0xcc0000, 0x4e9a06, 0xc4a000, 0x3465a4, 0x75507b, 0x06989a, 0xd3d7cf,
            0x555753, 0xef2929, 0x8ae234, 0xfce94f, 0x729fcf, 0xad7fa8, 0x34e2e2, 0xeeeeec,
        ],
    )
}


/// The colours of the `zed_dark` theme.
pub open spec fn zed_dark_palette() -> ThemeView {
    palette_view(
        0x1e1e1e,
        0x252526,
        0x1e1e1e,
        0x2d2d2d,
        0x3c3c3c,
        0xd4d4d4,
        0x969696,
        0x007fd4,
        seq![
            0x000000, 0xf2495a, 0x2fb943, 0xe2b93d, 0x117df5, 0xb267e6, 0x35b3b3, 0xe0e0e0,
            0x808080, 0xf97380, 0x4bd05e, 0xeadd5c, 0x3d9bf9, 0xcb8df1, 0x56d4d4, 0xffffff,
        ],
    )
}


/// The colours of the `dracula` theme.
pub open spec fn dracula_palette() -> ThemeView {
    palette_view(
        0x282a36,
        0x21222c,
        0x282a36,
        0x21222c,
        0x44475a,
        0xf8f8f2,
        0x6272a4,
        0xbd93f9,
        seq![
            0x21222c, 0xff5555, 0x50fa7b, 0xf1fa8c, 0xbd93f9, 0xff79c6, 0x8be9fd, 0xf8f8f2,
            0x6272a4, 0xff6e6e, 0x69ff94, 0xffffa5, 0xd6acff, 0xff92df, 0xa4ffff, 0xffffff,
        ],
    )
}


/// The colours of the `nord` theme.
pub open spec fn nord_palette() -> ThemeView {
    palette_view(
        0x2e3440,
        0x242933,
        0x2e3440,
        0x242933,
        0x3b4252,
        0xd8dee9,
        0x4c566a,
        0x88c0d0,
        seq![
            0x3b4252, 0xbf616a, 0xa3be8c, 0xebcb8b, 0x81a1c1, 0xb48ead, 0x88c0d0, 0xe5e9f0,
            0x4c566a, 0xbf616a, 0xa3be8c, 0xebcb8b, 0x81a1c1, 0xb48ead, 0x8fbcbb, 0xeceff4,
        ],
    )
}


/// The colours of the `gruvbox_dark` theme.
pub open spec fn gruvbox_dark_palette() -> ThemeView {
    palette_view(
        0x282828,
        0x1d2021,
        0x282828,
        0x1d2021,
        0x3c3836,
        0xebdbb2,
        0x928374,
        0xfe8019,
        seq![
            0x282828, 0xcc241d, 0x98971a, 0xd79921, 0x458588, 0xb16286, 0x689d6a, 0xa89984,
            0x928374, 0xfb4934, 0xb8bb26, 0xfabd2f, 0x83a598, 0xd3869b, 0x8ec07c, 0xebdbb2,
        ],
    )
}


/// The colours of the `one_dark` theme.
pub open spec fn one_dark_palette() -> ThemeView {
    palette_view(
        0x282c34,
        0x21252b,
        0x282c34,
        0x21252b,
        0x181a1f,
        0xabb2bf,
        0x5c6370,
        0x61afef,
        seq![
            0x282c34, 0xe06c75, 0x98c379, 0xe5c07b, 0x61afef, 0xc678dd, 0x56b6c2, 0xabb2bf,
            0x5c6370, 0xe06c75, 0x98c379, 0xe5c07b, 0x61afef, 0xc678dd, 0x56b6c2, 0xffffff,
        ],
    )
}


/// The colours of the `solarized_dark` theme.
pub open spec fn solarized_dark_palette() -> ThemeView {
    palette_view(
        0x002b36,
        0x00212b,
        0x002b36,
        0x00212b,
        0x073642,
        0x839496,
        0x586e75,
        0x268bd2,
        seq![
            0x073642, 0xdc322f, 0x859900, 0xb58900, 0x268bd2, 0xd33682, 0x2aa198, 0xeee8d5,
            0x002b36, 0xcb4b16, 0x586e75, 0x657b83, 0x839496, 0x6c71c4, 0x93a1a1, 0xfdf6e3,
        ],
    )
}


/// The colours of the `catppuccin_mocha` theme.
pub open spec fn catppuccin_mocha_palette() -> ThemeView {
    palette_view(
        0x1e1e2e,
        0x11111b,
        0x1e1e2e,
        0x181825,
        0x313244,
        0xcdd6f4,
        0x7f849c,
        0xcba6f7,
        seq![
            0x45475a, 0xf38ba8, 0xa6e3a1, 0xf9e2af, 0x89b4fa, 0xf5c2e7, 0x94e2d5, 0xbac2de,
            0x585b70, 0xf38ba8, 0xa6e3a1, 0xf9e2af, 0x89b4fa, 0xf5c2e7, 0x94e2d5, 0xa6adc8,
        ],
    )
}


/// The colours of the `tokyo_night` theme.
pub open spec fn tokyo_night_palette() -> ThemeView {
    palette_view(
        0x1a1b26,
        0x16161e,
        0x1a1b26,
        0x16161e,
        0x292e42,
        0xc0caf5,
        0x565f89,
        0x7aa2f7,
        seq![
            0x15161e, 0xf7768e, 0x9ece6a, 0xe0af68, 0x7aa2f7, 0xbb9af7, 0x7dcfff, 0xa9b1d6,
            0x414868, 0xf7768e, 0x9ece6a, 0xe0af68, 0x7aa2f7, 0xbb9af7, 0x7dcfff, 0xc0caf5,
        ],
    )
}


/// The colours of the `monokai` theme.
pub open spec fn monokai_palette() -> ThemeView {
    palette_view(
        0x272822,
        0x1e1f1c,
        0x272822,
        0x1e1f1c,
        0x3e3d32,
        0xf8f8f2,
        0x75715e,
        0xf92672,
        seq![
            0x272822, 0xf92672, 0xa6e22e, 0xf4bf75, 0x66d9ef, 0xae81ff, 0xa1efe4, 0xf8f8f2,
            0x75715e, 0xf92672, 0xa6e22e, 0xf4bf75, 0x66d9ef, 0xae81ff, 0xa1efe4, 0xf9f8f5,
        ],
    )
}


/// The colours of the `ayu_dark` theme.
pub open spec fn ayu_dark_palette() -> ThemeView {
    palette_view(
        0x0f1419,
        0x0b0e14,
        0x0f1419,
        0x0b0e14,
        0x242d35,
        0xe6e1cf,
        0x5c6773,
        0xffb454,
        seq![
            0x000000, 0xff3333, 0xb8cc52, 0xe7c547, 0x36a3d9, 0xf07178, 0x95e6cb, 0xffffff,
            0x323232, 0xff6565, 0xeaee0a, 0xe6e1cf, 0x68a1f0, 0xf07178, 0xc3e88d, 0xffffff,
        ],
    )
}


/// The colours of the `github_dark` theme.
pub open spec fn github_dark_palette() -> ThemeView {
    palette_view(
        0x0d1117,
        0x010409,
        0x0d1117,
        0x010409,
        0x30363d,
        0xc9d1d9,
        0x8b949e,
        0x58a6ff,
        seq![
            0x484f58, 0xff7b72, 0x3fb950, 0xd29922, 0x58a6ff, 0xbc8cff, 0x39c5cf, 0xb1bac4,
            0x6e7681, 0xffa198, 0x56d364, 0xe3b341, 0x79c0ff, 0xd2a8ff, 0x56d4dd, 0xf0f6fc,
        ],
    )
}


/// The theme `from_name` picks for `name`: the built-in theme of that
/// name, `zed_dark` for any other name and for none.
pub open spec fn theme_named(name: Option<Seq<char>>) -> ThemeView {
    match name {
        Some(n) => {
            if n == "light"@ {
                light_palette()
            } else if n == "midnight"@ {
                midnight_palette()
            } else if n == "ocean"@ {
                ocean_palette()
            } else if n == "forest"@ {
                forest_palette()
            } else if n == "rose"@ {
                rose_palette()
            } else if n == "paper"@ {
                paper_palette()
            } else if n == "lavender"@ {
                lavender_palette()
            } else if n == "sand"@ {
                sand_palette()
            } else if n == "high_contrast"@ {
                high_contrast_palette()
            } else if n == "one_light"@ {
                one_light_palette()
            } else if n == "vscode_light_plus"@ {
                vscode_light_plus_palette()
            } else if n == "vscode_quiet_light"@ {
                vscode_quiet_light_palette()
            } else if n == "solarized_light"@ {
                solarized_light_palette()
            } else if n == "ubuntu"@ {
                ubuntu_palette()
            } else if n == "vscode_dark_plus"@ {
                vscode_dark_plus_palette()
            } else if n == "vscode_abyss"@ {
                vscode_abyss_palette()
            } else if n == "dracula"@ {
                dracula_palette()
            } else if n == "nord"@ {
                nord_palette()
            } else if n == "gruvbox_dark"@ {
                gruvbox_dark_palette()
            } else if n == "one_dark"@ {
                one_dark_palette()
            } else if n == "solarized_dark"@ {
                solarized_dark_palette()
            } else if n == "catppuccin_mocha"@ {
                catppuccin_mocha_palette()
            } else if n == "tokyo_night"@ {
                tokyo_night_palette()
            } else if n == "monokai"@ {
                monokai_palette()
            } else if n == "ayu_dark"@ {
                ayu_dark_palette()
            } else if n == "github_dark"@ {
                github_dark_palette()
            } else {
                zed_dark_palette()
            }
        },
        None => zed_dark_palette(),
    }
}


/// The names of the built-in themes.
pub open spec fn builtin_names() -> Seq<&'static str> {
    seq![
        "light",
        "midnight",
        "ocean",
        "forest",
        "rose",
        "paper",
        "lavender",
        "sand",
        "high_contrast",
        "one_light",
        "vscode_light_plus",
        "vscode_quiet_light",
        "solarized_light",
        "ubuntu",
        "zed_dark",
        "vscode_dark_plus",
        "vscode_abyss",
        "dracula",
        "nord",
        "gruvbox_dark",
        "one_dark",
        "solarized_dark",
        "catppuccin_mocha",
        "tokyo_night",
        "monokai",
        "ayu_dark",
        "github_dark",
    ]
}

/// The names of the light themes.
pub open spec fn is_light_name(name: Seq<char>) -> bool {
    name == "light"@
        || name == "paper"@
        || name == "lavender"@
        || name == "sand"@
        || name == "one_light"@
        || name == "vscode_light_plus"@
        || name == "vscode_quiet_light"@
        || name == "solarized_light"@
}


// ---------------------------------------------------------------------
// Display names and the catalogue order
// ---------------------------------------------------------------------

/// What character `i` of a snake_case name turns into: an underscore
/// becomes a space, the first character of a word is uppercased, any
/// other stays.
pub open spec fn word_piece(s: Seq<char>, i: int) -> Seq<char> {
    if s[i] == '_' {
        seq![' ']
    } else if i == 0 || s[i - 1] == '_' {
        uppercase_of(s[i])
    } else {
        seq![s[i]]
    }
}

/// The first `n` characters of `s` turned into words: split at `_`, each
/// word capitalised, joined with spaces.
pub open spec fn capitalized_words(s: Seq<char>, n: nat) -> Seq<char>
    decreases n,
{
    if n == 0 {
        Seq::empty()
    } else {
        capitalized_words(s, (n - 1) as nat) + word_piece(s, n - 1)
    }
}

/// The human-readable name of a theme: each leading `vscode_` becomes
/// `VS Code `, and the rest is split into capitalised words.
pub open spec fn display_name_spec(s: Seq<char>) -> Seq<char>
    decreases s.len(),
{
    if s.len() >= 7 && s.take(7) == "vscode_"@ {
        "VS Code "@ + display_name_spec(s.skip(7))
    } else {
        capitalized_words(s, s.len())
    }
}

/// Lexicographic order on character sequences, by code point (the order
/// of `String`s, since UTF-8 preserves it).
pub open spec fn chars_le(a: Seq<char>, b: Seq<char>) -> bool
    decreases a.len(),
{
    if a.len() == 0 {
        true
    } else if b.len() == 0 {
        false
    } else if a[0] != b[0] {
        a[0] < b[0]
    } else {
        chars_le(a.drop_first(), b.drop_first())
    }
}

/// `names` are in ascending order of their display names.
pub open spec fn sorted_by_display_name(names: Seq<&'static str>) -> bool {
    forall|i: int, j: int|
        0 <= i < j < names.len() ==> chars_le(
            display_name_spec((#[trigger] names[i])@),
            display_name_spec((#[trigger] names[j])@),
        )
}

/// Either of two sequences is lexicographically below the other.
pub proof fn lemma_chars_le_total(a: Seq<char>, b: Seq<char>)
    ensures
        chars_le(a, b) || chars_le(b, a),
    decreases a.len(),
{
    if a.len() > 0 && b.len() > 0 && a[0] == b[0] {
        lemma_chars_le_total(a.drop_first(), b.drop_first());
    }
}

/// The lexicographic order is transitive.
pub proof fn lemma_chars_le_transitive(a: Seq<char>, b: Seq<char>, c: Seq<char>)
    requires
        chars_le(a, b),
        chars_le(b, c),
    ensures
        chars_le(a, c),
    decreases a.len(),
{
    if a.len() > 0 && b.len() > 0 && c.len() > 0 && a[0] == b[0] && b[0] == c[0] {
        lemma_chars_le_transitive(a.drop_first(), b.drop_first(), c.drop_first());
    }
}

/// Whether `a` comes no later than `b` in lexicographic order.
fn chars_le_exec(a: &Vec<char>, b: &Vec<char>) -> (r: bool)
    ensures
        r == chars_le(a@, b@),
{
    let mut i: usize = 0;
    assert(a@.skip(0) =~= a@);
    assert(b@.skip(0) =~= b@);
    while i < a.len() && i < b.len()
        invariant
            i <= a@.len(),
            i <= b@.len(),
            chars_le(a@, b@) == chars_le(a@.skip(i as int), b@.skip(i as int)),
        decreases a@.len() - i,
    {
        assert(a@.skip(i as int)[0] == a@[i as int]);
        assert(b@.skip(i as int)[0] == b@[i as int]);
        if a[i] != b[i] {
            return a[i] < b[i];
        }
        assert(a@.skip(i as int).drop_first() =~= a@.skip(i + 1));
        assert(b@.skip(i as int).drop_first() =~= b@.skip(i + 1));
        i = i + 1;
    }
    i == a.len()
}

/// Whether `s` holds `p` at position `pos`.
fn has_prefix_at(s: &Vec<char>, pos: usize, p: &Vec<char>) -> (r: bool)
    requires
        pos <= s@.len(),
    ensures
        r == (s@.len() - pos >= p@.len() && s@.subrange(pos as int, pos + p@.len()) == p@),
{
    let sl = s.len();
    if sl - pos < p.len() {
        return false;
    }
    let mut k: usize = 0;
    while k < p.len()
        invariant
            sl == s@.len(),
            k <= p@.len(),
            pos + p@.len() <= s@.len(),
            forall|j: int| 0 <= j < k ==> s@[pos + j] == p@[j],
        decreases p@.len() - k,
    {
        if s[pos + k] != p[k] {
            assert(s@.subrange(pos as int, pos + p@.len())[k as int] != p@[k as int]);
            return false;
        }
        k = k + 1;
    }
    assert(s@.subrange(pos as int, pos + p@.len()) =~= p@);
    true
}

/// The display name of `name`, as characters.
fn display_name_chars(name: &str) -> (r: Vec<char>)
    ensures
        r@ == display_name_spec(name@),
{
    proof {
        reveal_strlit("vscode_");
        reveal_strlit("VS Code ");
    }
    let s = chars_of(name);
    let prefix = chars_of("vscode_");
    let label = chars_of("VS Code ");
    let mut out: Vec<char> = Vec::new();
    let mut pos: usize = 0;
    let mut more = has_prefix_at(&s, pos, &prefix);
    let sl = s.len();
    assert(s@.skip(0) =~= s@);
    while more
        invariant
            sl == s@.len(),
            pos <= s@.len(),
            more == (s@.len() - pos >= prefix@.len() && s@.subrange(pos as int, pos + prefix@.len())
                == prefix@),
            prefix@ == "vscode_"@,
            label@ == "VS Code "@,
            display_name_spec(s@) == out@ + display_name_spec(s@.skip(pos as int)),
        decreases s@.len() - pos,
    {
        proof {
            reveal_strlit("vscode_");
            reveal_strlit("VS Code ");
        }
        let ghost rest = s@.skip(pos as int);
        assert(rest.take(7) =~= s@.subrange(pos as int, pos + 7));
        assert(rest.skip(7) =~= s@.skip(pos + 7));
        let mut k: usize = 0;
        let ghost before = out@;
        while k < label.len()
            invariant
                k <= label@.len(),
                out@ == before + label@.take(k as int),
            decreases label@.len() - k,
        {
            out.push(label[k]);
            k = k + 1;
            assert(out@ =~= before + label@.take(k as int));
        }
        assert(label@.take(label@.len() as int) =~= label@);
        assert(out@ =~= before + "VS Code "@);
        pos = pos + 7;
        more = has_prefix_at(&s, pos, &prefix);
    }
    let ghost rest = s@.skip(pos as int);
    let ghost head = out@;
    assert(!(rest.len() >= 7 && rest.take(7) == "vscode_"@)) by {
        if rest.len() >= 7 {
            assert(rest.take(7) =~= s@.subrange(pos as int, pos + 7));
        }
    }
    let mut i: usize = pos;
    while i < s.len()
        invariant
            pos <= i <= s@.len(),
            rest == s@.skip(pos as int),
            out@ == head + capitalized_words(rest, (i - pos) as nat),
        decreases s@.len() - i,
    {
        let ghost j: int = i - pos;
        assert(rest[j] == s@[i as int]);
        assert(j > 0 ==> rest[j - 1] == s@[i - 1]);
        if s[i] == '_' {
            out.push(' ');
        } else if i == pos || s[i - 1] == '_' {
            let up = char_to_uppercase(s[i]);
            let mut k: usize = 0;
            let ghost before = out@;
            while k < up.len()
                invariant
                    k <= up@.len(),
                    out@ == before + up@.take(k as int),
                decreases up@.len() - k,
            {
                out.push(up[k]);
                k = k + 1;
                assert(out@ =~= before + up@.take(k as int));
            }
            assert(up@.take(up@.len() as int) =~= up@);
        } else {
            out.push(s[i]);
        }
        i = i + 1;
        assert(out@ =~= head + capitalized_words(rest, (i - pos) as nat));
    }
    out
}

impl Theme {
    /// A theme with the given colours.
    fn from_palette(
        bg_main: u32,
        bg_sidebar: u32,
        bg_tab_active: u32,
        bg_tab_inactive: u32,
        border: u32,
        text_primary: u32,
        text_muted: u32,
        accent: u32,
        ansi: [u32; 16],
    ) -> (t: Theme)
        ensures
            t@ == palette_view(
                bg_main,
                bg_sidebar,
                bg_tab_active,
                bg_tab_inactive,
                border,
                text_primary,
                text_muted,
                accent,
                ansi@,
            ),
    {
        Theme {
            bg_main,
            bg_sidebar,
            bg_tab_active,
            bg_tab_inactive,
            border,
            text_primary,
            text_muted,
            accent,
            ansi,
        }
    }


    /// The `light` theme.
    pub fn light() -> (t: Theme)
        ensures
            t@ == light_palette(),
    {
        let ansi: [u32; 16] = [
                0x24292f, 0xcf222e, 0x1a7f37, 0x9a6700, 0x0969da, 0x8250df, 0x1b7c83, 0x6e7781,
                0x57606a, 0xa40e26, 0x116329, 0x7d4e00, 0x218bff, 0x8250df, 0x3192aa, 0x8c959f,
            ];
        let t = Theme::from_palette(
            0xf7f8fa,
            0xedf0f3,
            0xffffff,
            0xe3e7eb,
            0xd1d7de,
            0x1f2328,
            0x656d76,
            0x0969da,
            ansi,
        );
        assert(t@.ansi =~= light_palette().ansi);
        t
    }


    /// The `midnight` theme.
    pub fn midnight() -> (t: Theme)
        ensures
            t@ == midnight_palette(),
    {
        let ansi: [u32; 16] = [
                0x1a1e2e, 0xff6b81, 0x7ed6a5, 0xf2c97d, 0x8ea7ff, 0xc6a0f6, 0x7dd8d3, 0xd5d9e5,
                0x59617a, 0xff8fa0, 0x9ae6bc, 0xffdda0, 0xb1c2ff, 0xdabfff, 0x9af2ec, 0xffffff,
            ];
        let t = Theme::from_palette(
            0x141827,
            0x0f1220,
            0x141827,
            0x20263a,
            0x303852,
            0xe4e7f2,
            0x9098b8,
            0x8ea7ff,
            ansi,
        );
        assert(t@.ansi =~= midnight_palette().ansi);
        t
    }


    /// The `ocean` theme.
    pub fn ocean() -> (t: Theme)
        ensures
            t@ == ocean_palette(),
    {
        let ansi: [u32; 16] = [
                0x102b36, 0xff6b6b, 0x8bd49c, 0xe9c46a, 0x5aa9e6, 0xc084d6, 0x4fd1c5, 0xc8e6e6,
                0x42606b, 0xff9696, 0xa9e8b7, 0xf4d58a, 0x86c7ff, 0xe0a5ef, 0x83ebe3, 0xf2ffff,
            ];
        let t = Theme::from_palette(
            0x10202a,
            0x0d1a22,
            0x10202a,
            0x18323e,
            0x28505e,
            0xd6f0f0,
            0x7ea5ad,
            0x4fd1c5,
            ansi,
        );
        assert(t@.ansi =~= ocean_palette().ansi);
        t
    }


    /// The `forest` theme.
    pub fn forest() -> (t: Theme)
        ensures
            t@ == forest_palette(),
    {
        let ansi: [u32; 16] = [
                0x202b22, 0xeb6f6f, 0x8fcf72, 0xe3c477, 0x7ab8d8, 0xc39bd3, 0x72c9bc, 0xd3ded2,
                0x536356, 0xff9494, 0xa9e58e, 0xf1d99a, 0x9bcdf0, 0xddb8e7, 0x91e8da, 0xf2fff0,
            ];
        let t = Theme::from_palette(
            0x17201a,
            0x101711,
            0x17201a,
            0x233126,
            0x354735,
            0xdce8dc,
            0x8fa28e,
            0x8fcf72,
            ansi,
        );
        assert(t@.ansi =~= forest_palette().ansi);
        t
    }


    /// The `rose` theme.
    pub fn rose() -> (t: Theme)
        ensures
            t@ == rose_palette(),
    {
        let ansi: [u32; 16] = [
                0x281c24, 0xf06c8b, 0x9dcc82, 0xe7c57b, 0x8fb8e8, 0xd2a0dc, 0x7fc8c5, 0xe9dce2,
                0x66505e, 0xff93ac, 0xb7e49b, 0xf4d998, 0xb0d0ff, 0xe9b8ec, 0x9be7e0, 0xffffff,
            ];
        let t = Theme::from_palette(
            0x21171d,
            0x180f15,
            0x21171d,
            0x30212a,
            0x49313d,
            0xf2e1e8,
            0xb49aa8,
            0xf08cae,
            ansi,
        );
        assert(t@.ansi =~= rose_palette().ansi);
        t
    }


    /// The `paper` theme.
    pub fn paper() -> (t: Theme)
        ensures
            t@ == paper_palette(),
    {
        let ansi: [u32; 16] = [
                0x3a332b, 0xb33a3a, 0x4f7d3a, 0x9a6a16, 0x356aa0, 0x8654a8, 0x287f7a, 0x8e857a,
                0x6b6259, 0xd05353, 0x72a95a, 0xc18c29, 0x5f91c9, 0xa978c5, 0x48aaa2, 0xfffdf8,
            ];
        let t = Theme::from_palette(
            0xfbf8f2,
            0xf1ece2,
            0xfffdf8,
            0xe8e0d3,
            0xd7cbbb,
            0x3a332b,
            0x85776a,
            0xb45f28,
            ansi,
        );
        assert(t@.ansi =~= paper_palette().ansi);
        t
    }


    /// The `lavender` theme.
    pub fn lavender() -> (t: Theme)
        ensures
            t@ == lavender_palette(),
    {
        let ansi: [u32; 16] = [
                0x352e42, 0xc4475a, 0x4d8a62, 0xa26f19, 0x526ebd, 0x7957c8, 0x3d8c8c, 0x82798f,
                0x675d72, 0xe15e73, 0x72b887, 0xc18d32, 0x718edc, 0x9b7ce8, 0x5bb8b5, 0xffffff,
            ];
        let t = Theme::from_palette(
            0xf7f4ff,
            0xeee9fb,
            0xffffff,
            0xe7def7,
            0xd4c5eb,
            0x352e42,
            0x847a98,
            0x7957c8,
            ansi,
        );
        assert(t@.ansi =~= lavender_palette().ansi);
        t
    }


    /// The `sand` theme.
    pub fn sand() -> (t: Theme)
        ensures
            t@ == sand_palette(),
    {
        let ansi: [u32; 16] = [
                0x40372d, 0xb64945, 0x5c873f, 0xa57422, 0x4f79a8, 0x8b5ca8, 0x3d8580, 0x8e8373,
                0x6b5d4e, 0xd8665f, 0x82aa5d, 0xc99a3b, 0x7099c8, 0xb27bc6, 0x5aada5, 0xfff9ec,
            ];
        let t = Theme::from_palette(
            0xf8f3e8,
            0xeee5d5,
            0xfcf8ef,
            0xe4d7c2,
            0xd2c1a6,
            0x40372d,
            0x8c7b68,
            0xb86b3e,
            ansi,
        );
        assert(t@.ansi =~= sand_palette().ansi);
        t
    }


    /// The `high_contrast` theme.
    pub fn high_contrast() -> (t: Theme)
        ensures
            t@ == high_contrast_palette(),
    {
        let ansi: [u32; 16] = [
                0x000000, 0xff3333, 0x33ff66, 0xffff33, 0x3399ff, 0xff66ff, 0x33ffff, 0xffffff,
                0x888888, 0xff7777, 0x77ff99, 0xffff77, 0x77bbff, 0xff99ff, 0x77ffff, 0xffffff,
            ];
        let t = Theme::from_palette(
            0x000000,
            0x080808,
            0x000000,
            0x1b1b1b,
            0x777777,
            0xffffff,
            0xc8c8c8,
            0x00e5ff,
            ansi,
        );
        assert(t@.ansi =~= high_contrast_palette().ansi);
        t
    }


    /// The `one_light` theme.
    pub fn one_light() -> (t: Theme)
        ensures
            t@ == one_light_palette(),
    {
        let ansi: [u32; 16] = [
                0x383a42, 0xe45649, 0x50a14f, 0xc18401, 0x4078f2, 0xa626a4, 0x0184bb, 0xfafafa,
                0x696c77, 0xf44747, 0x2d9d35, 0xd19a66, 0x709dff, 0xd16bca, 0x00a7aa, 0xffffff,
            ];
        let t = Theme::from_palette(
            0xfafafa,
            0xf3f3f3,
            0xfafafa,
            0xe5e5e6,
            0xd0d0d0,
            0x383a42,
            0xa0a1a7,
            0x4078f2,
            ansi,
        );
        assert(t@.ansi =~= one_light_palette().ansi);
        t
    }


    /// The `vscode_light_plus` theme.
    pub fn vscode_light_plus() -> (t: Theme)
        ensures
            t@ == vscode_light_plus_palette(),
    {
        let ansi: [u32; 16] = [
                0x000000, 0xcd3131, 0x008000, 0x795e26, 0x0451a5, 0xaf00db, 0x267f99, 0x666666,
                0x808080, 0xcd3131, 0x14ce14, 0xb89500, 0x0451a5, 0xbc05bc, 0x2aa1ae, 0xffffff,
            ];
        let t = Theme::from_palette(
            0xffffff,
            0xf3f3f3,
            0xffffff,
            0xe7e7e7,
            0xd4d4d4,
            0x333333,
            0x6a737d,
            0x0066bf,
            ansi,
        );
        assert(t@.ansi =~= vscode_light_plus_palette().ansi);
        t
    }


    /// The `vscode_quiet_light` theme.
    pub fn vscode_quiet_light() -> (t: Theme)
        ensures
            t@ == vscode_quiet_light_palette(),
    {
        let ansi: [u32; 16] = [
                0x333333, 0xaa3731, 0x448c27, 0xcb9000, 0x2f6f9f, 0x7a3e9d, 0x3d8b8b, 0x777777,
                0x666666, 0xf05050, 0x61c554, 0xfacb43, 0x5d9bcf, 0xad7fa8, 0x6fc2c2, 0xffffff,
            ];
        let t = Theme::from_palette(
            0xf5f5f5,
            0xeeeeee,
            0xf5f5f5,
            0xe3e3e3,
            0xd5d5d5,
            0x333333,
            0x7a7a7a,
            0x2f6f9f,
            ansi,
        );
        assert(t@.ansi =~= vscode_quiet_light_palette().ansi);
        t
    }


    /// The `solarized_light` theme.
    pub fn solarized_light() -> (t: Theme)
        ensures
            t@ == solarized_light_palette(),
    {
        let ansi: [u32; 16] = [
                0x073642, 0xdc322f, 0x859900, 0xb58900, 0x268bd2, 0xd33682, 0x2aa198, 0xeee8d5,
                0x002b36, 0xcb4b16, 0x586e75, 0x657b83, 0x839496, 0x6c71c4, 0x93a1a1, 0xfdf6e3,
            ];
        let t = Theme::from_palette(
            0xfdf6e3,
            0xf5efdc,
            0xfdf6e3,
            0xeee8d5,
            0xe1d8c1,
            0x657b83,
            0x93a1a1,
            0x268bd2,
            ansi,
        );
        assert(t@.ansi =~= solarized_light_palette().ansi);
        t
    }


    /// The `vscode_dark_plus` theme.
    pub fn vscode_dark_plus() -> (t: Theme)
        ensures
            t@ == vscode_dark_plus_palette(),
    {
        let ansi: [u32; 16] = [
                0x000000, 0xcd3131, 0x0dbc79, 0xe5e510, 0x2472c8, 0xbc3fbc, 0x11a8cd, 0xe5e5e5,
                0x666666, 0xcd3131, 0x23d18b, 0xf5f543, 0x3b8eea, 0xd670d6, 0x29b8db, 0xffffff,
            ];
        let t = Theme::from_palette(
            0x1e1e1e,
            0x252526,
            0x1e1e1e,
            0x333333,
            0x3c3c3c,
            0xd4d4d4,
            0x969696,
            0x007acc,
            ansi,
        );
        assert(t@.ansi =~= vscode_dark_plus_palette().ansi);
        t
    }


    /// The `vscode_abyss` theme.
    pub fn vscode_abyss() -> (t: Theme)
        ensures
            t@ == vscode_abyss_palette(),
    {
        let ansi: [u32; 16] = [
                0x000000, 0xff6c8b, 0x9fe463, 0xffd75f, 0x75beff, 0x9f7fff, 0x75e6da, 0xd5e5f5,
                0x405570, 0xff8fa3, 0xb5ef80, 0xffe58a, 0x9cc9ff, 0xc0a4ff, 0x9af2e9, 0xffffff,
            ];
        let t = Theme::from_palette(
            0x000c18,
            0x001521,
            0x000c18,
            0x032b3d,
            0x06445a,
            0x6688a3,
            0x456579,
            0x75beff,
            ansi,
        );
        assert(t@.ansi =~= vscode_abyss_palette().ansi);
        t
    }


    /// The `ubuntu` theme.
    pub fn ubuntu() -> (t: Theme)
        ensures
            t@ == ubuntu_palette(),
    {
        let ansi: [u32; 16] = [
                0x2e3436, 0xcc0000, 0x4e9a06, 0xc4a000, 0x3465a4, 0x75507b, 0x06989a, 0xd3d7cf,
                0x555753, 0xef2929, 0x8ae234, 0xfce94f, 0x729fcf, 0xad7fa8, 0x34e2e2, 0xeeeeec,
            ];
        let t = Theme::from_palette(
            0x300a24,
            0x2a081f,
            0x300a24,
            0x401030,
            0x501c3d,
            0xffffff,
            0xcccccc,
            0xe95420,
            ansi,
        );
        assert(t@.ansi =~= ubuntu_palette().ansi);
        t
    }


    /// The `zed_dark` theme.
    pub fn zed_dark() -> (t: Theme)
        ensures
            t@ == zed_dark_palette(),
    {
        let ansi: [u32; 16] = [
                0x000000, 0xf2495a, 0x2fb943, 0xe2b93d, 0x117df5, 0xb267e6, 0x35b3b3, 0xe0e0e0,
                0x808080, 0xf97380, 0x4bd05e, 0xeadd5c, 0x3d9bf9, 0xcb8df1, 0x56d4d4, 0xffffff,
            ];
        let t = Theme::from_palette(
            0x1e1e1e,
            0x252526,
            0x1e1e1e,
            0x2d2d2d,
            0x3c3c3c,
            0xd4d4d4,
            0x969696,
            0x007fd4,
            ansi,
        );
        assert(t@.ansi =~= zed_dark_palette().ansi);
        t
    }


    /// The `dracula` theme.
    pub fn dracula() -> (t: Theme)
        ensures
            t@ == dracula_palette(),
    {
        let ansi: [u32; 16] = [
                0x21222c, 0xff5555, 0x50fa7b, 0xf1fa8c, 0xbd93f9, 0xff79c6, 0x8be9fd, 0xf8f8f2,
                0x6272a4, 0xff6e6e, 0x69ff94, 0xffffa5, 0xd6acff, 0xff92df, 0xa4ffff, 0xffffff,
            ];
        let t = Theme::from_palette(
            0x282a36,
            0x21222c,
            0x282a36,
            0x21222c,
            0x44475a,
            0xf8f8f2,
            0x6272a4,
            0xbd93f9,
            ansi,
        );
        assert(t@.ansi =~= dracula_palette().ansi);
        t
    }


    /// The `nord` theme.
    pub fn nord() -> (t: Theme)
        ensures
            t@ == nord_palette(),
    {
        let ansi: [u32; 16] = [
                0x3b4252, 0xbf616a, 0xa3be8c, 0xebcb8b, 0x81a1c1, 0xb48ead, 0x88c0d0, 0xe5e9f0,
                0x4c566a, 0xbf616a, 0xa3be8c, 0xebcb8b, 0x81a1c1, 0xb48ead, 0x8fbcbb, 0xeceff4,
            ];
        let t = Theme::from_palette(
            0x2e3440,
            0x242933,
            0x2e3440,
            0x242933,
            0x3b4252,
            0xd8dee9,
            0x4c566a,
            0x88c0d0,
            ansi,
        );
        assert(t@.ansi =~= nord_palette().ansi);
        t
    }


    /// The `gruvbox_dark` theme.
    pub fn gruvbox_dark() -> (t: Theme)
        ensures
            t@ == gruvbox_dark_palette(),
    {
        let ansi: [u32; 16] = [
                0x282828, 0xcc241d, 0x98971a, 0xd79921, 0x458588, 0xb16286, 0x689d6a, 0xa89984,
                0x928374, 0xfb4934, 0xb8bb26, 0xfabd2f, 0x83a598, 0xd3869b, 0x8ec07c, 0xebdbb2,
            ];
        let t = Theme::from_palette(
            0x282828,
            0x1d2021,
            0x282828,
            0x1d2021,
            0x3c3836,
            0xebdbb2,
            0x928374,
            0xfe8019,
            ansi,
        );
        assert(t@.ansi =~= gruvbox_dark_palette().ansi);
        t
    }


    /// The `one_dark` theme.
    pub fn one_dark() -> (t: Theme)
        ensures
            t@ == one_dark_palette(),
    {
        let ansi: [u32; 16] = [
                0x282c34, 0xe06c75, 0x98c379, 0xe5c07b, 0x61afef, 0xc678dd, 0x56b6c2, 0xabb2bf,
                0x5c6370, 0xe06c75, 0x98c379, 0xe5c07b, 0x61afef, 0xc678dd, 0x56b6c2, 0xffffff,
            ];
        let t = Theme::from_palette(
            0x282c34,
            0x21252b,
            0x282c34,
            0x21252b,
            0x181a1f,
            0xabb2bf,
            0x5c6370,
            0x61afef,
            ansi,
        );
        assert(t@.ansi =~= one_dark_palette().ansi);
        t
    }


    /// The `solarized_dark` theme.
    pub fn solarized_dark() -> (t: Theme)
        ensures
            t@ == solarized_dark_palette(),
    {
        let ansi: [u32; 16] = [
                0x073642, 0xdc322f, 0x859900, 0xb58900, 0x268bd2, 0xd33682, 0x2aa198, 0xeee8d5,
                0x002b36, 0xcb4b16, 0x586e75, 0x657b83, 0x839496, 0x6c71c4, 0x93a1a1, 0xfdf6e3,
            ];
        let t = Theme::from_palette(
            0x002b36,
            0x00212b,
            0x002b36,
            0x00212b,
            0x073642,
            0x839496,
            0x586e75,
            0x268bd2,
            ansi,
        );
        assert(t@.ansi =~= solarized_dark_palette().ansi);
        t
    }


    /// The `catppuccin_mocha` theme.
    pub fn catppuccin_mocha() -> (t: Theme)
        ensures
            t@ == catppuccin_mocha_palette(),
    {
        let ansi: [u32; 16] = [
                0x45475a, 0xf38ba8, 0xa6e3a1, 0xf9e2af, 0x89b4fa, 0xf5c2e7, 0x94e2d5, 0xbac2de,
                0x585b70, 0xf38ba8, 0xa6e3a1, 0xf9e2af, 0x89b4fa, 0xf5c2e7, 0x94e2d5, 0xa6adc8,
            ];
        let t = Theme::from_palette(
            0x1e1e2e,
            0x11111b,
            0x1e1e2e,
            0x181825,
            0x313244,
            0xcdd6f4,
            0x7f849c,
            0xcba6f7,
            ansi,
        );
        assert(t@.ansi =~= catppuccin_mocha_palette().ansi);
        t
    }


    /// The `tokyo_night` theme.
    pub fn tokyo_night() -> (t: Theme)
        ensures
            t@ == tokyo_night_palette(),
    {
        let ansi: [u32; 16] = [
                0x15161e, 0xf7768e, 0x9ece6a, 0xe0af68, 0x7aa2f7, 0xbb9af7, 0x7dcfff, 0xa9b1d6,
                0x414868, 0xf7768e, 0x9ece6a, 0xe0af68, 0x7aa2f7, 0xbb9af7, 0x7dcfff, 0xc0caf5,
            ];
        let t = Theme::from_palette(
            0x1a1b26,
            0x16161e,
            0x1a1b26,
            0x16161e,
            0x292e42,
            0xc0caf5,
            0x565f89,
            0x7aa2f7,
            ansi,
        );
        assert(t@.ansi =~= tokyo_night_palette().ansi);
        t
    }


    /// The `monokai` theme.
    pub fn monokai() -> (t: Theme)
        ensures
            t@ == monokai_palette(),
    {
        let ansi: [u32; 16] = [
                0x272822, 0xf92672, 0xa6e22e, 0xf4bf75, 0x66d9ef, 0xae81ff, 0xa1efe4, 0xf8f8f2,
                0x75715e, 0xf92672, 0xa6e22e, 0xf4bf75, 0x66d9ef, 0xae81ff, 0xa1efe4, 0xf9f8f5,
            ];
        let t = Theme::from_palette(
            0x272822,
            0x1e1f1c,
            0x272822,
            0x1e1f1c,
            0x3e3d32,
            0xf8f8f2,
            0x75715e,
            0xf92672,
            ansi,
        );
        assert(t@.ansi =~= monokai_palette().ansi);
        t
    }


    /// The `ayu_dark` theme.
    pub fn ayu_dark() -> (t: Theme)
        ensures
            t@ == ayu_dark_palette(),
    {
        let ansi: [u32; 16] = [
                0x000000, 0xff3333, 0xb8cc52, 0xe7c547, 0x36a3d9, 0xf07178, 0x95e6cb, 0xffffff,
                0x323232, 0xff6565, 0xeaee0a, 0xe6e1cf, 0x68a1f0, 0xf07178, 0xc3e88d, 0xffffff,
            ];
        let t = Theme::from_palette(
            0x0f1419,
            0x0b0e14,
            0x0f1419,
            0x0b0e14,
            0x242d35,
            0xe6e1cf,
            0x5c6773,
            0xffb454,
            ansi,
        );
        assert(t@.ansi =~= ayu_dark_palette().ansi);
        t
    }


    /// The `github_dark` theme.
    pub fn github_dark() -> (t: Theme)
        ensures
            t@ == github_dark_palette(),
    {
        let ansi: [u32; 16] = [
                0x484f58, 0xff7b72, 0x3fb950, 0xd29922, 0x58a6ff, 0xbc8cff, 0x39c5cf, 0xb1bac4,
                0x6e7681, 0xffa198, 0x56d364, 0xe3b341, 0x79c0ff, 0xd2a8ff, 0x56d4dd, 0xf0f6fc,
            ];
        let t = Theme::from_palette(
            0x0d1117,
            0x010409,
            0x0d1117,
            0x010409,
            0x30363d,
            0xc9d1d9,
            0x8b949e,
            0x58a6ff,
            ansi,
        );
        assert(t@.ansi =~= github_dark_palette().ansi);
        t
    }


    /// The built-in theme called `name`; `zed_dark` for an unknown name or
    /// none.
    pub fn from_name(name: Option<&str>) -> (t: Theme)
        ensures
            t@ == theme_named(
                match name {
                    Some(n) => Some(n@),
                    None => None,
                },
            ),
    {
        match name {
            Some(n) => {
                if str_eq(n, "light") {
                    Theme::light()
                } else if str_eq(n, "midnight") {
                    Theme::midnight()
                } else if str_eq(n, "ocean") {
                    Theme::ocean()
                } else if str_eq(n, "forest") {
                    Theme::forest()
                } else if str_eq(n, "rose") {
                    Theme::rose()
                } else if str_eq(n, "paper") {
                    Theme::paper()
                } else if str_eq(n, "lavender") {
                    Theme::lavender()
                } else if str_eq(n, "sand") {
                    Theme::sand()
                } else if str_eq(n, "high_contrast") {
                    Theme::high_contrast()
                } else if str_eq(n, "one_light") {
                    Theme::one_light()
                } else if str_eq(n, "vscode_light_plus") {
                    Theme::vscode_light_plus()
                } else if str_eq(n, "vscode_quiet_light") {
                    Theme::vscode_quiet_light()
                } else if str_eq(n, "solarized_light") {
                    Theme::solarized_light()
                } else if str_eq(n, "ubuntu") {
                    Theme::ubuntu()
                } else if str_eq(n, "vscode_dark_plus") {
                    Theme::vscode_dark_plus()
                } else if str_eq(n, "vscode_abyss") {
                    Theme::vscode_abyss()
                } else if str_eq(n, "dracula") {
                    Theme::dracula()
                } else if str_eq(n, "nord") {
                    Theme::nord()
                } else if str_eq(n, "gruvbox_dark") {
                    Theme::gruvbox_dark()
                } else if str_eq(n, "one_dark") {
                    Theme::one_dark()
                } else if str_eq(n, "solarized_dark") {
                    Theme::solarized_dark()
                } else if str_eq(n, "catppuccin_mocha") {
                    Theme::catppuccin_mocha()
                } else if str_eq(n, "tokyo_night") {
                    Theme::tokyo_night()
                } else if str_eq(n, "monokai") {
                    Theme::monokai()
                } else if str_eq(n, "ayu_dark") {
                    Theme::ayu_dark()
                } else if str_eq(n, "github_dark") {
                    Theme::github_dark()
                } else {
                    Theme::zed_dark()
                }
            },
            None => Theme::zed_dark(),
        }
    }

    /// The human-readable name of the theme called `name`: `vscode_dark_plus`
    /// reads `VS Code Dark Plus`.
    pub fn display_name(name: &str) -> (r: String)
        ensures
            r@ == display_name_spec(name@),
    {
        string_from_chars(&display_name_chars(name))
    }

    /// The names of the built-in themes, in ascending order of their
    /// display names.
    pub fn builtins() -> (names: Vec<&'static str>)
        ensures
            names@.to_multiset() == builtin_names().to_multiset(),
            sorted_by_display_name(names@),
    {
        let mut v: Vec<&'static str> = vec![
            "light",
            "midnight",
            "ocean",
            "forest",
            "rose",
            "paper",
            "lavender",
            "sand",
            "high_contrast",
            "one_light",
            "vscode_light_plus",
            "vscode_quiet_light",
            "solarized_light",
            "ubuntu",
            "zed_dark",
            "vscode_dark_plus",
            "vscode_abyss",
            "dracula",
            "nord",
            "gruvbox_dark",
            "one_dark",
            "solarized_dark",
            "catppuccin_mocha",
            "tokyo_night",
            "monokai",
            "ayu_dark",
            "github_dark",
        ];
        assert(v@ =~= builtin_names());
        let n = v.len();
        let mut i: usize = 0;
        while i < n
            invariant
                n == v@.len(),
                i <= n,
                v@.to_multiset() == builtin_names().to_multiset(),
                forall|a: int, b: int|
                    0 <= a < b < i ==> chars_le(
                        display_name_spec((#[trigger] v@[a])@),
                        display_name_spec((#[trigger] v@[b])@),
                    ),
                forall|a: int, b: int|
                    0 <= a < i <= b < n ==> chars_le(
                        display_name_spec((#[trigger] v@[a])@),
                        display_name_spec((#[trigger] v@[b])@),
                    ),
            decreases n - i,
        {
            let mut m: usize = i;
            let mut key_m = display_name_chars(v[i]);
            let mut j: usize = i + 1;
            proof {
                lemma_chars_le_total(key_m@, key_m@);
            }
            while j < n
                invariant
                    n == v@.len(),
                    i <= m < n,
                    i < j <= n,
                    key_m@ == display_name_spec(v@[m as int]@),
                    forall|b: int|
                        i <= b < j ==> chars_le(key_m@, display_name_spec((#[trigger] v@[b])@)),
                decreases n - j,
            {
                let key_j = display_name_chars(v[j]);
                if !chars_le_exec(&key_m, &key_j) {
                    proof {
                        lemma_chars_le_total(key_m@, key_j@);
                        assert forall|b: int| i <= b < j + 1 implies chars_le(
                            key_j@,
                            display_name_spec((#[trigger] v@[b])@),
                        ) by {
                            if b < j {
                                lemma_chars_le_transitive(
                                    key_j@,
                                    key_m@,
                                    display_name_spec(v@[b]@),
                                );
                            } else {
                                lemma_chars_le_total(key_j@, key_j@);
                            }
                        }
                    }
                    m = j;
                    key_m = key_j;
                }
                j = j + 1;
            }
            let a = v[i];
            let b = v[m];
            let ghost before = v@;
            proof {
                broadcast use vstd::seq_lib::to_multiset_update;
                broadcast use vstd::seq_lib::to_multiset_contains;
                broadcast use vstd::multiset::group_multiset_axioms;

                let s1 = before.update(i as int, b);
                assert(before[i as int] == a);
                assert(before.contains(a));
                assert(before.to_multiset().count(a) > 0);
                assert(s1.to_multiset() == before.to_multiset().insert(b).remove(a));
                assert(s1[m as int] == b);
                assert(s1.update(m as int, a).to_multiset() == s1.to_multiset().insert(a).remove(b));
                assert(s1.update(m as int, a).to_multiset() =~= before.to_multiset());
            }
            v.set(i, b);
            v.set(m, a);
            proof {
                assert forall|x: int, y: int| 0 <= x < y < i + 1 implies chars_le(
                    display_name_spec((#[trigger] v@[x])@),
                    display_name_spec((#[trigger] v@[y])@),
                ) by {
                    if y == i {
                        assert(v@[y] == before[m as int]);
                        assert(v@[x] == before[x]);
                    }
                }
                assert forall|x: int, y: int| 0 <= x < i + 1 <= y < n implies chars_le(
                    display_name_spec((#[trigger] v@[x])@),
                    display_name_spec((#[trigger] v@[y])@),
                ) by {
                    if y == m {
                        assert(v@[y] == before[i as int]);
                    } else {
                        assert(v@[y] == before[y]);
                    }
                    if x == i {
                        assert(v@[x] == before[m as int]);
                    } else {
                        assert(v@[x] == before[x]);
                    }
                }
            }
            i = i + 1;
        }
        v
    }

    /// Whether the theme called `name` has a dark background: every name
    /// but those of the light themes.
    pub fn is_dark(name: &str) -> (r: bool)
        ensures
            r == !is_light_name(name@),
    {
        !(str_eq(name, "light")
            || str_eq(name, "paper")
            || str_eq(name, "lavender")
            || str_eq(name, "sand")
            || str_eq(name, "one_light")
            || str_eq(name, "vscode_light_plus")
            || str_eq(name, "vscode_quiet_light")
            || str_eq(name, "solarized_light"))
    }
}

impl Default for Theme {
    /// The default theme, `zed_dark`.
    fn default() -> (t: Theme)
        ensures
            t@ == zed_dark_palette(),
    {
        Theme::zed_dark()
    }
}

/// The terminal palette of a theme: its primary text colour as the
/// default foreground, its main background as the default background, and
/// its sixteen ANSI colours.
pub fn theme_terminal_colors(t: &Theme) -> (c: TerminalColors)
    ensures
        c.fg@ == hex_channels(t.text_primary),
        c.bg@ == hex_channels(t.bg_main),
        forall|i: int| 0 <= i < 16 ==> (#[trigger] c.ansi[i])@ == hex_channels(t.ansi[i]),
{
    let mut ansi = [[0u8; 3]; 16];
    let mut i: usize = 0;
    while i < 16
        invariant
            i <= 16,
            forall|k: int| 0 <= k < i ==> (#[trigger] ansi[k])@ == hex_channels(t.ansi[k]),
        decreases 16 - i,
    {
        ansi[i] = channels(t.ansi[i]);
        i = i + 1;
    }
    TerminalColors::new(channels(t.text_primary), channels(t.bg_main), ansi)
}

/// The `bg_tab_inactive` colour of each catalogue theme, in catalogue
/// order; no two are alike.
spec fn catalogue_keys() -> Seq<u32> {
    seq![0xe3e7eb, 0x20263a, 0x18323e, 0x233126, 0x30212a, 0xe8e0d3, 0xe7def7, 0xe4d7c2, 0x1b1b1b, 0xe5e5e6, 0xe7e7e7, 0xe3e3e3, 0xeee8d5, 0x401030, 0x2d2d2d, 0x333333, 0x032b3d, 0x21222c, 0x242933, 0x1d2021, 0x21252b, 0x00212b, 0x181825, 0x16161e, 0x1e1f1c, 0x0b0e14, 0x010409]
}

#[verifier::rlimit(100)]
#[verifier::spinoff_prover]
proof fn lemma_catalogue_keys()
    ensures
        forall|i: int|
            0 <= i < 27 ==> #[trigger] theme_named(Some(builtin_names()[i]@)).bg_tab_inactive
                == catalogue_keys()[i],
        forall|i: int, j: int|
            0 <= i < 27 && 0 <= j < 27 && i != j ==> #[trigger] catalogue_keys()[i]
                != #[trigger] catalogue_keys()[j],
{
    reveal_strlit("light");
    reveal_strlit("midnight");
    reveal_strlit("ocean");
    reveal_strlit("forest");
    reveal_strlit("rose");
    reveal_strlit("paper");
    reveal_strlit("lavender");
    reveal_strlit("sand");
    reveal_strlit("high_contrast");
    reveal_strlit("one_light");
    reveal_strlit("vscode_light_plus");
    reveal_strlit("vscode_quiet_light");
    reveal_strlit("solarized_light");
    reveal_strlit("ubuntu");
    reveal_strlit("zed_dark");
    reveal_strlit("vscode_dark_plus");
    reveal_strlit("vscode_abyss");
    reveal_strlit("dracula");
    reveal_strlit("nord");
    reveal_strlit("gruvbox_dark");
    reveal_strlit("one_dark");
    reveal_strlit("solarized_dark");
    reveal_strlit("catppuccin_mocha");
    reveal_strlit("tokyo_night");
    reveal_strlit("monokai");
    reveal_strlit("ayu_dark");
    reveal_strlit("github_dark");
    assert("light"@.len() == 5);
    assert("midnight"@.len() == 8);
    assert("ocean"@.len() == 5);
    assert("forest"@.len() == 6);
    assert("rose"@.len() == 4);
    assert("paper"@.len() == 5);
    assert("lavender"@.len() == 8);
    assert("sand"@.len() == 4);
    assert("high_contrast"@.len() == 13);
    assert("one_light"@.len() == 9);
    assert("vscode_light_plus"@.len() == 17);
    assert("vscode_quiet_light"@.len() == 18);
    assert("solarized_light"@.len() == 15);
    assert("ubuntu"@.len() == 6);
    assert("zed_dark"@.len() == 8);
    assert("vscode_dark_plus"@.len() == 16);
    assert("vscode_abyss"@.len() == 12);
    assert("dracula"@.len() == 7);
    assert("nord"@.len() == 4);
    assert("gruvbox_dark"@.len() == 12);
    assert("one_dark"@.len() == 8);
    assert("solarized_dark"@.len() == 14);
    assert("catppuccin_mocha"@.len() == 16);
    assert("tokyo_night"@.len() == 11);
    assert("monokai"@.len() == 7);
    assert("ayu_dark"@.len() == 8);
    assert("github_dark"@.len() == 11);
    assert(builtin_names()[0]@ == "light"@);
    assert(theme_named(Some("light"@)).bg_tab_inactive == 0xe3e7ebu32);
    assert(builtin_names()[1]@ == "midnight"@);
    assert(theme_named(Some("midnight"@)).bg_tab_inactive == 0x20263au32);
    assert("ocean"@[0] != "light"@[0]);
    assert(builtin_names()[2]@ == "ocean"@);
    assert(theme_named(Some("ocean"@)).bg_tab_inactive == 0x18323eu32);
    assert(builtin_names()[3]@ == "forest"@);
    assert(theme_named(Some("forest"@)).bg_tab_inactive == 0x233126u32);
    assert(builtin_names()[4]@ == "rose"@);
    assert(theme_named(Some("rose"@)).bg_tab_inactive == 0x30212au32);
    assert("paper"@[0] != "light"@[0]);
    assert("paper"@[0] != "ocean"@[0]);
    assert(builtin_names()[5]@ == "paper"@);
    assert(theme_named(Some("paper"@)).bg_tab_inactive == 0xe8e0d3u32);
    assert("lavender"@[0] != "midnight"@[0]);
    assert(builtin_names()[6]@ == "lavender"@);
    assert(theme_named(Some("lavender"@)).bg_tab_inactive == 0xe7def7u32);
    assert("sand"@[0] != "rose"@[0]);
    assert(builtin_names()[7]@ == "sand"@);
    assert(theme_named(Some("sand"@)).bg_tab_inactive == 0xe4d7c2u32);
    assert(builtin_names()[8]@ == "high_contrast"@);
    assert(theme_named(Some("high_contrast"@)).bg_tab_inactive == 0x1b1b1bu32);
    assert(builtin_names()[9]@ == "one_light"@);
    assert(theme_named(Some("one_light"@)).bg_tab_inactive == 0xe5e5e6u32);
    assert(builtin_names()[10]@ == "vscode_light_plus"@);
    assert(theme_named(Some("vscode_light_plus"@)).bg_tab_inactive == 0xe7e7e7u32);
    assert(builtin_names()[11]@ == "vscode_quiet_light"@);
    assert(theme_named(Some("vscode_quiet_light"@)).bg_tab_inactive == 0xe3e3e3u32);
    assert(builtin_names()[12]@ == "solarized_light"@);
    assert(theme_named(Some("solarized_light"@)).bg_tab_inactive == 0xeee8d5u32);
    assert("ubuntu"@[0] != "forest"@[0]);
    assert(builtin_names()[13]@ == "ubuntu"@);
    assert(theme_named(Some("ubuntu"@)).bg_tab_inactive == 0x401030u32);
    assert("zed_dark"@[0] != "midnight"@[0]);
    assert("zed_dark"@[0] != "lavender"@[0]);
    assert("zed_dark"@[0] != "one_dark"@[0]);
    assert("zed_dark"@[0] != "ayu_dark"@[0]);
    assert(builtin_names()[14]@ == "zed_dark"@);
    assert(theme_named(Some("zed_dark"@)).bg_tab_inactive == 0x2d2d2du32);
    assert(builtin_names()[15]@ == "vscode_dark_plus"@);
    assert(theme_named(Some("vscode_dark_plus"@)).bg_tab_inactive == 0x333333u32);
    assert(builtin_names()[16]@ == "vscode_abyss"@);
    assert(theme_named(Some("vscode_abyss"@)).bg_tab_inactive == 0x032b3du32);
    assert(builtin_names()[17]@ == "dracula"@);
    assert(theme_named(Some("dracula"@)).bg_tab_inactive == 0x21222cu32);
    assert("nord"@[0] != "rose"@[0]);
    assert("nord"@[0] != "sand"@[0]);
    assert(builtin_names()[18]@ == "nord"@);
    assert(theme_named(Some("nord"@)).bg_tab_inactive == 0x242933u32);
    assert("gruvbox_dark"@[0] != "vscode_abyss"@[0]);
    assert(builtin_names()[19]@ == "gruvbox_dark"@);
    assert(theme_named(Some("gruvbox_dark"@)).bg_tab_inactive == 0x1d2021u32);
    assert("one_dark"@[0] != "midnight"@[0]);
    assert("one_dark"@[0] != "lavender"@[0]);
    assert(builtin_names()[20]@ == "one_dark"@);
    assert(theme_named(Some("one_dark"@)).bg_tab_inactive == 0x21252bu32);
    assert(builtin_names()[21]@ == "solarized_dark"@);
    assert(theme_named(Some("solarized_dark"@)).bg_tab_inactive == 0x00212bu32);
    assert("catppuccin_mocha"@[0] != "vscode_dark_plus"@[0]);
    assert(builtin_names()[22]@ == "catppuccin_mocha"@);
    assert(theme_named(Some("catppuccin_mocha"@)).bg_tab_inactive == 0x181825u32);
    assert(builtin_names()[23]@ == "tokyo_night"@);
    assert(theme_named(Some("tokyo_night"@)).bg_tab_inactive == 0x16161eu32);
    assert("monokai"@[0] != "dracula"@[0]);
    assert(builtin_names()[24]@ == "monokai"@);
    assert(theme_named(Some("monokai"@)).bg_tab_inactive == 0x1e1f1cu32);
    assert("ayu_dark"@[0] != "midnight"@[0]);
    assert("ayu_dark"@[0] != "lavender"@[0]);
    assert("ayu_dark"@[0] != "one_dark"@[0]);
    assert(builtin_names()[25]@ == "ayu_dark"@);
    assert(theme_named(Some("ayu_dark"@)).bg_tab_inactive == 0x0b0e14u32);
    assert("github_dark"@[0] != "tokyo_night"@[0]);
    assert(builtin_names()[26]@ == "github_dark"@);
    assert(theme_named(Some("github_dark"@)).bg_tab_inactive == 0x010409u32);
}

/// Every built-in theme name picks a theme of its own: two different
/// names of the catalogue never give the same theme (so none of them falls
/// back to another, such as the default).
pub proof fn law_catalogue_names_pick_distinct_themes(i: int, j: int)
    requires
        0 <= i < builtin_names().len(),
        0 <= j < builtin_names().len(),
        i != j,
    ensures
        theme_named(Some(builtin_names()[i]@)) != theme_named(Some(builtin_names()[j]@)),
{
    lemma_catalogue_keys();
    assert(theme_named(Some(builtin_names()[i]@)).bg_tab_inactive == catalogue_keys()[i]);
    assert(theme_named(Some(builtin_names()[j]@)).bg_tab_inactive == catalogue_keys()[j]);
}

/// A name outside the catalogue, or no name, gives the default `zed_dark`
/// theme.
pub proof fn law_unknown_names_fall_back(name: Option<Seq<char>>)
    requires
        name matches Some(n) ==> forall|k: int| 0 <= k < builtin_names().len() ==> n != (#[trigger] builtin_names()[k])@,
    ensures
        theme_named(name) == zed_dark_palette(),
{
    if let Some(n) = name {
        reveal_strlit("light");
        reveal_strlit("midnight");
        reveal_strlit("ocean");
        reveal_strlit("forest");
        reveal_strlit("rose");
        reveal_strlit("paper");
        reveal_strlit("lavender");
        reveal_strlit("sand");
        reveal_strlit("high_contrast");
        reveal_strlit("one_light");
        reveal_strlit("vscode_light_plus");
        reveal_strlit("vscode_quiet_light");
        reveal_strlit("solarized_light");
        reveal_strlit("ubuntu");
        reveal_strlit("zed_dark");
        reveal_strlit("vscode_dark_plus");
        reveal_strlit("vscode_abyss");
        reveal_strlit("dracula");
        reveal_strlit("nord");
        reveal_strlit("gruvbox_dark");
        reveal_strlit("one_dark");
        reveal_strlit("solarized_dark");
        reveal_strlit("catppuccin_mocha");
        reveal_strlit("tokyo_night");
        reveal_strlit("monokai");
        reveal_strlit("ayu_dark");
        reveal_strlit("github_dark");
        assert(n != builtin_names()[0]@);
        assert(n != builtin_names()[1]@);
        assert(n != builtin_names()[2]@);
        assert(n != builtin_names()[3]@);
        assert(n != builtin_names()[4]@);
        assert(n != builtin_names()[5]@);
        assert(n != builtin_names()[6]@);
        assert(n != builtin_names()[7]@);
        assert(n != builtin_names()[8]@);
        assert(n != builtin_names()[9]@);
        assert(n != builtin_names()[10]@);
        assert(n != builtin_names()[11]@);
        assert(n != builtin_names()[12]@);
        assert(n != builtin_names()[13]@);
        assert(n != builtin_names()[14]@);
        assert(n != builtin_names()[15]@);
        assert(n != builtin_names()[16]@);
        assert(n != builtin_names()[17]@);
        assert(n != builtin_names()[18]@);
        assert(n != builtin_names()[19]@);
        assert(n != builtin_names()[20]@);
        assert(n != builtin_names()[21]@);
        assert(n != builtin_names()[22]@);
        assert(n != builtin_names()[23]@);
        assert(n != builtin_names()[24]@);
        assert(n != builtin_names()[25]@);
        assert(n != builtin_names()[26]@);
    }
}

} // verus!
