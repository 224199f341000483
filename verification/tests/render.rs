use vterm::palette::TerminalColors;
use vterm::render::{
    block_shape, box_drawing, cell_color_rgb, cell_contents, cell_index_at_byte_offset, channels_to_u32,
    u32_to_channels, BlockRect, Palette, StrokeWeight,
};
use vterm::terminal::{CellColor, TermCell};

#[test]
fn block_elements_share_cell_edges() {
    assert_eq!(block_shape('█').unwrap().rects[0], BlockRect { left: 0, top: 0, right: 8, bottom: 8 });
    assert!(block_shape('A').is_none());

    let block_elements = "█▀▄▌▐▏▎▍▋▊▉▕▁▂▃▅▆▇▔▖▗▘▝▚▞▙▛▜▟";
    assert!(block_elements.chars().all(|ch| block_shape(ch).is_some()));
    assert!(block_shape(' ').is_none());
}

#[test]
fn box_drawing_segments_share_cell_edges() {
    assert_eq!(box_drawing('─').unwrap().mask, 0b1010);
    assert_eq!(box_drawing('│').unwrap().mask, 0b0101);
    assert_eq!(box_drawing('╋').unwrap().mask, 0b1111);
    assert_eq!(box_drawing('╭').unwrap().mask, 0b0110);
    assert!(box_drawing('A').is_none());
}

#[test]
fn box_drawing_weights() {
    assert_eq!(box_drawing('━').unwrap().stroke, StrokeWeight::Heavy);
    assert_eq!(box_drawing('═').unwrap().stroke, StrokeWeight::Double);
    assert_eq!(box_drawing('─').unwrap().stroke, StrokeWeight::Light);
    assert_eq!(box_drawing('╵').unwrap().mask, 0b0001);
}

#[test]
fn block_shapes_with_several_rects() {
    let s = block_shape('▙').unwrap();
    assert_eq!(s.count, 3);
    assert_eq!(s.rects[1], BlockRect { left: 0, top: 4, right: 4, bottom: 8 });
    let s = block_shape('▚').unwrap();
    assert_eq!(s.count, 2);
    assert_eq!(s.rects[2], BlockRect { left: 0, top: 0, right: 0, bottom: 0 });
    assert_eq!(block_shape('▔').unwrap().rects[0], BlockRect { left: 0, top: 0, right: 8, bottom: 1 });
}

#[test]
fn channels_round_trip() {
    assert_eq!(channels_to_u32([0x12, 0x34, 0x56]), 0x123456);
    assert_eq!(u32_to_channels(0xabcdef), [0xab, 0xcd, 0xef]);
    assert_eq!(u32_to_channels(channels_to_u32([1, 2, 3])), [1, 2, 3]);
}

#[test]
fn queried_colours_are_the_painted_colours() {
    let mut ansi = [[0u8; 3]; 16];
    ansi[3] = [0x10, 0x20, 0x30];
    let colors = TerminalColors::new([0xaa, 0xbb, 0xcc], [0x01, 0x02, 0x03], ansi);
    let pal = Palette::from_channels(colors.get());
    let bg = u32_to_channels(pal.bg);
    for idx in 0..=255u8 {
        assert_eq!(Some(cell_color_rgb(&CellColor::Palette(idx), bg, &pal)), colors.resolve(idx as usize));
    }
    assert_eq!(Some(cell_color_rgb(&CellColor::Foreground, bg, &pal)), colors.resolve(256));
    assert_eq!(Some(cell_color_rgb(&CellColor::Background, bg, &pal)), colors.resolve(257));
    assert_eq!(cell_color_rgb(&CellColor::Rgb([9, 8, 7]), bg, &pal), [9, 8, 7]);
}

fn cell(ch: char, zero_width: Vec<char>, wide_spacer: bool) -> TermCell {
    TermCell {
        ch,
        zero_width,
        fg: CellColor::Foreground,
        bg: CellColor::Background,
        bold: false,
        italic: false,
        underline: false,
        inverse: false,
        wide_spacer,
    }
}

#[test]
fn cell_text_keeps_the_grid_aligned() {
    assert_eq!(cell_contents(None), "\u{00A0}");
    assert_eq!(cell_contents(Some(&cell(' ', vec![], false))), "\u{00A0}");
    assert_eq!(cell_contents(Some(&cell('x', vec![], true))), "\u{00A0}");
    assert_eq!(cell_contents(Some(&cell('ส', vec!['\u{0E35}'], false))), "สี");
    assert_eq!(cell_contents(Some(&cell('a', vec![], false))), "a");
}

#[test]
fn byte_offsets_map_to_cells() {
    let cells = vec!["a".to_string(), "ส".to_string(), "b".to_string()];
    assert_eq!(cell_index_at_byte_offset(&cells, 0), 0);
    assert_eq!(cell_index_at_byte_offset(&cells, 1), 1);
    assert_eq!(cell_index_at_byte_offset(&cells, 2), 2);
    assert_eq!(cell_index_at_byte_offset(&cells, 4), 2);
    assert_eq!(cell_index_at_byte_offset(&cells, 5), 3);
    assert_eq!(cell_index_at_byte_offset(&cells, 9), 3);
    assert_eq!(cell_index_at_byte_offset(&Vec::new(), 3), 0);
}
