use vterm::esc_filter::{scan_csi, AltScreenFilter};

fn flat(segments: Vec<(Vec<u8>, bool)>) -> (Vec<u8>, usize) {
    let mut bytes = Vec::new();
    let mut clears = 0;
    for (seg, clear_after) in segments {
        bytes.extend_from_slice(&seg);
        if clear_after {
            clears += 1;
        }
    }
    (bytes, clears)
}

#[test]
fn filters_alt_screen_switches_but_keeps_other_escapes() {
    let mut f = AltScreenFilter::new();
    let input = b"\x1b[?1049h\x1b[2Jhello\x1b[?1049l\x1b[31mred";
    assert_eq!(flat(f.feed(input)), (b"\x1b[2Jhello\x1b[31mred".to_vec(), 0));
}

#[test]
fn filters_47_and_1047_variants_and_keeps_other_modes() {
    let mut f = AltScreenFilter::new();
    let input = b"a\x1b[?47hb\x1b[?1047lc\x1b[?1000l\x1b[?1006hd";
    assert_eq!(flat(f.feed(input)), (b"abc\x1b[?1000l\x1b[?1006hd".to_vec(), 0));
}

#[test]
fn reassembles_sequences_split_across_chunks() {
    let mut f = AltScreenFilter::new();
    let first = flat(f.feed(b"x\x1b[?10"));
    let second = flat(f.feed(b"49h y\x1b[H!"));
    assert_eq!(first, (b"x".to_vec(), 0));
    assert_eq!(second, (b" y\x1b[H!".to_vec(), 0));
}

#[test]
fn lone_escape_bytes_pass_through() {
    let mut f = AltScreenFilter::new();
    assert_eq!(flat(f.feed(b"a\x1bb\x1bc")), (b"a\x1bb\x1bc".to_vec(), 0));
}

#[test]
fn detects_clear_scrollback_in_both_variants() {
    let mut f = AltScreenFilter::new();
    let (_, clears) = flat(f.feed(b"\x1b[3J"));
    assert_eq!(clears, 1);

    let mut f = AltScreenFilter::new();
    let (bytes, clears) = flat(f.feed(b"hi\x1b[?3Jbye"));
    assert_eq!(bytes, b"hi\x1b[?3Jbye".to_vec());
    assert_eq!(clears, 1);
}

#[test]
fn home_plus_erase_all_purges_outside_fullscreen_apps() {
    let mut f = AltScreenFilter::new();
    let (bytes, clears) = flat(f.feed(b"out \x1b[H\x1b[2Jdone"));
    assert_eq!(bytes, b"out \x1b[H\x1b[2Jdone".to_vec());
    assert_eq!(clears, 1);
}

#[test]
fn fullscreen_start_flushes_like_a_clear() {
    let mut f = AltScreenFilter::new();
    let (bytes, clears) = flat(f.feed(b"\x1b[?1049h\x1b[H\x1b[2Jvim draws\x1b[?1049l"));
    assert_eq!(bytes, b"\x1b[H\x1b[2Jvim draws".to_vec());
    assert_eq!(clears, 1);
}

#[test]
fn lone_2j_does_not_purge_without_adjacent_home() {
    let mut f = AltScreenFilter::new();
    let (_, clears) = flat(f.feed(b"x y \x1b[2J more"));
    assert_eq!(clears, 0);
}

#[test]
fn scan_csi_classifies_sequences() {
    let alt = scan_csi(b"\x1b[?1049h rest").unwrap();
    assert!(!alt.keep);
    assert_eq!(alt.len, 8);
    let clear = scan_csi(b"\x1b[3J").unwrap();
    assert!(clear.keep && clear.clear_scrollback && !clear.erase_all);
    let home = scan_csi(b"\x1b[1;1H").unwrap();
    assert!(home.cup_home);
    let erase = scan_csi(b"\x1b[J").unwrap();
    assert!(erase.erase_all);
    assert_eq!(scan_csi(b"\x1b[?10"), Err(false));
    assert_eq!(scan_csi(b"\x1bb"), Err(true));
    assert_eq!(scan_csi(b"\x1b"), Err(false));
}

#[test]
fn chunking_does_not_change_the_output() {
    let whole = b"ab\x1b[?1049hcd\x1b[H\x1b[2Jef\x1b[3Jg";
    let mut one = AltScreenFilter::new();
    let all = flat(one.feed(whole));
    for cut in 0..whole.len() {
        let mut two = AltScreenFilter::new();
        let (mut bytes, mut clears) = flat(two.feed(&whole[..cut]));
        let (rest, more) = flat(two.feed(&whole[cut..]));
        bytes.extend_from_slice(&rest);
        clears += more;
        assert_eq!((bytes, clears), all, "cut at {}", cut);
    }
}

#[test]
fn plain_text_passes_unchanged() {
    let mut f = AltScreenFilter::new();
    let segs = f.feed(b"just some text\r\n");
    assert_eq!(segs.len(), 1);
    assert_eq!(segs[0], (b"just some text\r\n".to_vec(), false));
}

#[test]
fn trailing_lone_escape_waits_for_the_next_chunk() {
    let mut f = AltScreenFilter::new();
    assert_eq!(flat(f.feed(b"x\x1b")), (b"x".to_vec(), 0));
    assert_eq!(flat(f.feed(b"[?1049hy")), (b"y".to_vec(), 0));
    let mut g = AltScreenFilter::new();
    assert_eq!(flat(g.feed(b"ab\x1b")), (b"ab".to_vec(), 0));
    assert_eq!(flat(g.feed(b"c")), (b"\x1bc".to_vec(), 0));
}
