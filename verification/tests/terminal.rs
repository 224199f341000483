use vterm::terminal::{
    encode_text_input, map_color, snapshot_cursor, valid_session_name, AnsiColor, CellColor, TermCell,
    TerminalSnapshot,
};

#[test]
fn encodes_composed_text_as_bracketed_paste() {
    assert_eq!(encode_text_input("สวัสดี", true), "\x1b[200~สวัสดี\x1b[201~".as_bytes());
    assert_eq!(encode_text_input("สวัสดี", false), "สวัสดี".as_bytes());
    assert_eq!(encode_text_input("plain", true), b"plain");
}

#[test]
fn session_names_are_ascii_words_and_dashes() {
    assert!(valid_session_name("vterm-123-4"));
    assert!(valid_session_name("ABCxyz"));
    assert!(!valid_session_name(""));
    assert!(!valid_session_name("a b"));
    assert!(!valid_session_name("a.b"));
    assert!(!valid_session_name("ส"));
}

#[test]
fn map_color_folds_named_colours() {
    assert_eq!(map_color(AnsiColor::Named(256)), CellColor::Foreground);
    assert_eq!(map_color(AnsiColor::Named(257)), CellColor::Background);
    assert_eq!(map_color(AnsiColor::Named(258)), CellColor::Foreground);
    assert_eq!(map_color(AnsiColor::Named(3)), CellColor::Palette(3));
    assert_eq!(map_color(AnsiColor::Named(261)), CellColor::Palette(2));
    assert_eq!(map_color(AnsiColor::Named(267)), CellColor::Foreground);
    assert_eq!(map_color(AnsiColor::Spec([1, 2, 3])), CellColor::Rgb([1, 2, 3]));
    assert_eq!(map_color(AnsiColor::Indexed(200)), CellColor::Palette(200));
}

fn cell(ch: char) -> TermCell {
    TermCell {
        ch,
        zero_width: Vec::new(),
        fg: CellColor::Foreground,
        bg: CellColor::Background,
        bold: false,
        italic: false,
        underline: false,
        inverse: false,
        wide_spacer: false,
    }
}

fn grid(rows: &[&str]) -> TerminalSnapshot {
    let cols = rows[0].chars().count() as u16;
    let mut cells = Vec::new();
    for row in rows {
        for ch in row.chars() {
            cells.push(cell(ch));
        }
    }
    TerminalSnapshot {
        rows: rows.len() as u16,
        cols,
        offset: 0,
        history: 0,
        cursor: None,
        hide_cursor: false,
        cells,
    }
}

#[test]
fn snapshot_cells_are_row_major() {
    let snap = grid(&["abc", "def"]);
    assert_eq!(snap.cell(0, 0).unwrap().ch, 'a');
    assert_eq!(snap.cell(1, 2).unwrap().ch, 'f');
    assert!(snap.cell(2, 0).is_none());
    // The index is row * cols + col, so a column past the row's end reads on
    // into the next row.
    assert_eq!(snap.cell(0, 3).unwrap().ch, 'd');
}

#[test]
fn text_in_range_copies_the_block_row_by_row() {
    let snap = grid(&["ab  ", "cd  ", "ef  "]);
    assert_eq!(snap.text_in_range((1, 0), (0, 2)), "ab\ncd\nef");
    assert_eq!(snap.text_in_range((2, 1), (1, 0)), "b \nd ");
    assert_eq!(snap.text_in_range((3, 2), (3, 2)), " ");
    // Outside the grid a cell copies as a space.
    assert_eq!(snap.text_in_range((3, 2), (4, 2)), "  ");
}

#[test]
fn cursor_only_on_the_live_screen() {
    assert_eq!(snapshot_cursor(0, false, 3, 5, 24, 80), Some((3, 5)));
    assert_eq!(snapshot_cursor(2, false, 3, 5, 24, 80), None);
    assert_eq!(snapshot_cursor(0, true, 3, 5, 24, 80), None);
    assert_eq!(snapshot_cursor(0, false, -4, 100, 24, 80), Some((0, 79)));
}
