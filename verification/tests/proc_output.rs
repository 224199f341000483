use vterm::palette::{answer_color_query, TerminalColors};
use vterm::proc_output::{child_pids, current_branch, lsof_cwd, screen_socket, split_lines};
use vterm::shell::{identity_env, is_zsh, strips_env_var};
use vterm::text::ime_text_for_range;

#[test]
fn lines_follow_str_lines() {
    assert_eq!(split_lines("a\nb\r\nc"), vec!["a", "b", "c"]);
    assert_eq!(split_lines("a\n"), vec!["a"]);
    assert_eq!(split_lines(""), Vec::<String>::new());
    assert_eq!(split_lines("\n\nx"), vec!["", "", "x"]);
    assert_eq!(split_lines("a\rb\r"), vec!["a\rb\r"]);
    for text in ["one\ntwo\n", "x\r\n\r\ny", "\r\n", "tail\r"] {
        let expected: Vec<String> = text.lines().map(|l| l.to_string()).collect();
        assert_eq!(split_lines(text), expected, "{:?}", text);
    }
}

#[test]
fn lsof_reports_the_cwd_line() {
    assert_eq!(lsof_cwd("p123\nfcwd\nn/home/me/src\n"), Some("/home/me/src".to_string()));
    assert_eq!(lsof_cwd("p1\nfcwd\n"), None);
    assert_eq!(lsof_cwd("n\n"), Some(String::new()));
}

#[test]
fn pgrep_children_parse_as_numbers() {
    assert_eq!(child_pids("123\n  456 \nabc\n+7\n99999999999\n\n"), vec![123, 456, 7]);
    assert_eq!(child_pids(""), Vec::<u32>::new());
}

#[test]
fn screen_listing_finds_the_session() {
    let listing = "There is a screen on:\n\t4242.vterm-1-2\t(Detached)\n\t77.other\t(Attached)\n2 Sockets in /tmp.\n";
    assert_eq!(screen_socket(listing, "vterm-1-2"), Some("4242.vterm-1-2".to_string()));
    assert_eq!(screen_socket(listing, "other"), Some("77.other".to_string()));
    assert_eq!(screen_socket(listing, "missing"), None);
    assert_eq!(screen_socket(listing, "ther"), None);
}

#[test]
fn branch_output_is_trimmed() {
    assert_eq!(current_branch("  main\n"), "main");
    assert_eq!(current_branch("\n"), "");
}

#[test]
fn zsh_detection_and_env_stripping() {
    assert!(is_zsh("/bin/zsh"));
    assert!(is_zsh("zsh"));
    assert!(!is_zsh("/bin/bash"));
    assert!(!is_zsh("/usr/bin/zsh5"));
    assert!(!is_zsh("/zsh/"));
    assert!(strips_env_var("ZED_TERM"));
    assert!(strips_env_var("KITTY_PID"));
    assert!(strips_env_var("VSCODE_SHELL_INTEGRATION"));
    assert!(strips_env_var("_SHELL_INTEGRATION"));
    assert!(!strips_env_var("SHELL_INTEGRATION"));
    assert!(!strips_env_var("PATH"));
}

#[test]
fn ime_ranges_are_clamped() {
    assert_eq!(ime_text_for_range("", 0, 3), None);
    assert_eq!(ime_text_for_range("Aส🙂", 1, 4), Some(("ส🙂".to_string(), 1, 4)));
    assert_eq!(ime_text_for_range("Aส🙂", 0, 99), Some(("Aส🙂".to_string(), 0, 4)));
    assert_eq!(ime_text_for_range("Aส🙂", 3, 4), Some(("".to_string(), 3, 4)));
}

#[test]
fn colours_set_by_programs_win() {
    let colors = TerminalColors::dark();
    assert_eq!(answer_color_query(Some([1, 2, 3]), &colors, 1), Some([1, 2, 3]));
    assert_eq!(answer_color_query(None, &colors, 257), Some([0x0d, 0x0d, 0x0d]));
    assert_eq!(answer_color_query(None, &colors, 258), None);
}

#[test]
fn spawned_shells_get_a_full_colour_identity() {
    let env = identity_env(None, None, "0.1.4");
    let expect: Vec<(String, String)> = vec![
        ("TERM".into(), "xterm-256color".into()),
        ("COLORTERM".into(), "truecolor".into()),
        ("TERM_PROGRAM".into(), "vterm".into()),
        ("TERM_PROGRAM_VERSION".into(), "0.1.4".into()),
        ("COLORFGBG".into(), "15;0".into()),
    ];
    assert_eq!(env, expect);
    let named = identity_env(Some("vterm-dev".to_string()), Some("0.2.0-dev".to_string()), "0.1.4");
    assert_eq!(named[2], ("TERM_PROGRAM".to_string(), "vterm-dev".to_string()));
    assert_eq!(named[3], ("TERM_PROGRAM_VERSION".to_string(), "0.2.0-dev".to_string()));
}
