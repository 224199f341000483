use vterm::runs::{link_pieces, row_runs};
use vterm::terminal::{CellColor, TermCell, TerminalSnapshot};

fn cell(ch: char, fg: CellColor, bold: bool) -> TermCell {
    TermCell {
        ch,
        zero_width: Vec::new(),
        fg,
        bg: CellColor::Background,
        bold,
        italic: false,
        underline: false,
        inverse: false,
        wide_spacer: false,
    }
}

fn snapshot(cells: Vec<TermCell>, cursor: Option<(u16, u16)>) -> TerminalSnapshot {
    TerminalSnapshot { rows: 1, cols: cells.len() as u16, offset: 0, history: 0, cursor, hide_cursor: false, cells }
}

#[test]
fn runs_group_cells_of_one_style() {
    let red = CellColor::Palette(1);
    let snap = snapshot(
        vec![
            cell('a', CellColor::Foreground, false),
            cell('b', CellColor::Foreground, false),
            cell('c', red, false),
            cell(' ', red, false),
            cell('─', red, true),
        ],
        None,
    );
    let runs = row_runs(&snap, 0);
    assert_eq!(runs.len(), 3);
    assert_eq!(runs[0].start_col, 0);
    assert_eq!(runs[0].cells, vec!["a".to_string(), "b".to_string()]);
    assert_eq!(runs[1].start_col, 2);
    assert_eq!(runs[1].cells, vec!["c".to_string(), "\u{00A0}".to_string()]);
    assert_eq!(runs[1].style.fg, red);
    assert_eq!(runs[2].start_col, 4);
    // Box-drawing glyphs are drawn as rectangles; their text is a blank.
    assert_eq!(runs[2].cells, vec!["\u{00A0}".to_string()]);
    assert!(runs[2].style.bold);
}

#[test]
fn the_cursor_cell_is_inverted() {
    let snap = snapshot(
        vec![cell('x', CellColor::Foreground, false), cell('y', CellColor::Foreground, false)],
        Some((0, 1)),
    );
    let runs = row_runs(&snap, 0);
    assert_eq!(runs.len(), 2);
    assert!(!runs[0].style.inverse);
    assert!(runs[1].style.inverse);
    assert_eq!(runs[1].start_col, 1);
}

#[test]
fn missing_cells_paint_blank() {
    let mut snap = snapshot(vec![cell('x', CellColor::Foreground, false)], None);
    snap.cols = 3;
    let runs = row_runs(&snap, 0);
    assert_eq!(runs.len(), 1);
    assert_eq!(runs[0].cells.len(), 3);
    assert_eq!(runs[0].cells[2], "\u{00A0}");
}

fn cells_of(text: &str) -> Vec<String> {
    text.chars().map(|c| c.to_string()).collect()
}

#[test]
fn links_are_split_out_of_runs() {
    let cells = cells_of("see https://x.io/a) now");
    let pieces = link_pieces(&cells);
    assert_eq!(pieces.len(), 3);
    assert_eq!(pieces[0].text, "see ");
    assert!(!pieces[0].is_link);
    assert_eq!((pieces[0].start_cell, pieces[0].end_cell), (0, 4));
    assert_eq!(pieces[1].text, "https://x.io/a");
    assert!(pieces[1].is_link);
    assert_eq!((pieces[1].start_cell, pieces[1].end_cell), (4, 18));
    assert_eq!(pieces[2].text, ") now");
    assert_eq!((pieces[2].start_cell, pieces[2].end_cell), (18, 23));
}

#[test]
fn plain_runs_and_leading_links() {
    let pieces = link_pieces(&cells_of("no links"));
    assert_eq!(pieces.len(), 1);
    assert_eq!(pieces[0].text, "no links");
    assert_eq!((pieces[0].start_cell, pieces[0].end_cell), (0, 8));

    let pieces = link_pieces(&cells_of("http://a b"));
    assert_eq!(pieces.len(), 2);
    assert!(pieces[0].is_link);
    assert_eq!(pieces[0].text, "http://a");
    assert_eq!(pieces[1].text, " b");
    assert!(link_pieces(&Vec::new()).is_empty());
}
