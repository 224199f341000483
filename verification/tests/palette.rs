use vterm::palette::{channels, fallback_color_rgb, palette_rgb, standard_ansi, TerminalColors};

#[test]
fn theme_colors_resolve_query_indices() {
    let mut ansi = [[0u8; 3]; 16];
    for (i, slot) in ansi.iter_mut().enumerate() {
        *slot = channels(standard_ansi(i));
    }
    ansi[1] = [0xaa, 0x12, 0x34];
    let mut colors = TerminalColors::new([0x11, 0x22, 0x33], [0xdd, 0xee, 0xff], ansi);

    assert_eq!(colors.resolve(0), Some([0x00, 0x00, 0x00]));
    assert_eq!(colors.resolve(1), Some([0xaa, 0x12, 0x34]));
    assert_eq!(colors.resolve(255), Some([238, 238, 238]));
    assert_eq!(colors.resolve(256), Some([0x11, 0x22, 0x33]));
    assert_eq!(colors.resolve(257), Some([0xdd, 0xee, 0xff]));
    assert_eq!(colors.resolve(259), Some([0x00, 0x00, 0x00]));
    assert_eq!(colors.resolve(260), Some([0x55, 0x09, 0x1a]));
    assert_eq!(colors.resolve(258), None);
    assert_eq!(colors.resolve(269), None);

    colors.set([0, 0, 0], [255, 255, 255], {
        let mut a = ansi;
        a[2] = [9, 9, 9];
        a
    });
    assert_eq!(colors.resolve(256), Some([0, 0, 0]));
    assert_eq!(colors.resolve(257), Some([255, 255, 255]));
    assert_eq!(colors.resolve(2), Some([9, 9, 9]));
}

#[test]
fn palette_rgb_matches_xterm_standards() {
    assert_eq!(palette_rgb(0), Some([0x00, 0x00, 0x00]));
    assert_eq!(palette_rgb(15), Some([0xff, 0xff, 0xff]));
    assert_eq!(palette_rgb(16), Some([0x00, 0x00, 0x00]));
    assert_eq!(palette_rgb(231), Some([0xff, 0xff, 0xff]));
    assert_eq!(palette_rgb(232), Some([8, 8, 8]));
    assert_eq!(palette_rgb(255), Some([238, 238, 238]));
    assert_eq!(palette_rgb(256), None);
}

#[test]
fn colour_cube_entries() {
    assert_eq!(palette_rgb(17), Some([0, 0, 51]));
    assert_eq!(palette_rgb(196), Some([255, 0, 0]));
    assert_eq!(palette_rgb(244), Some([128, 128, 128]));
    assert_eq!(palette_rgb(9), Some([0xff, 0x00, 0x00]));
}

#[test]
fn dark_palette_answers_like_the_fallback_table() {
    let dark = TerminalColors::dark();
    for index in 0..300usize {
        assert_eq!(dark.resolve(index), fallback_color_rgb(index), "index {}", index);
    }
    assert_eq!(fallback_color_rgb(256), Some([0xe8, 0xe8, 0xe8]));
    assert_eq!(fallback_color_rgb(257), Some([0x0d, 0x0d, 0x0d]));
    assert_eq!(fallback_color_rgb(260), Some([0x66, 0x00, 0x00]));
    assert_eq!(fallback_color_rgb(258), None);
}

#[test]
fn get_returns_what_set_stored() {
    let mut colors = TerminalColors::dark();
    let ansi = [[7u8, 8, 9]; 16];
    colors.set([1, 2, 3], [4, 5, 6], ansi);
    assert_eq!(colors.get(), ([1, 2, 3], [4, 5, 6], ansi));
}

#[test]
fn channels_split_hex() {
    assert_eq!(channels(0x123456), [0x12, 0x34, 0x56]);
    assert_eq!(standard_ansi(12), 0x5c5cff);
}
