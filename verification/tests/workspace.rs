use vterm::split_tree::SplitNode;
use vterm::state::{TabData, TerminalData};
use vterm::theme::Theme;
use vterm::workspace::{AppState, CloseOutcome, WorkspaceData, DEFAULT_FONT_SIZE_BITS};

fn tab(name: &str) -> TabData {
    TabData::single(TerminalData { name: name.to_string(), cwd: None, session_name: None })
}

fn ws(name: &str, tabs: &[&str]) -> WorkspaceData {
    WorkspaceData { name: name.to_string(), terminals: tabs.iter().map(|t| tab(t)).collect(), active_term: 0 }
}

fn state(wss: Vec<WorkspaceData>) -> AppState {
    AppState {
        workspaces: wss,
        active_workspace: 0,
        theme_name: Some("zed_dark".to_string()),
        font_size_bits: DEFAULT_FONT_SIZE_BITS,
        theme: Theme::zed_dark(),
    }
}

fn names(s: &AppState) -> Vec<String> {
    s.workspaces.iter().map(|w| w.name.clone()).collect()
}

fn tab_names(w: &WorkspaceData) -> Vec<String> {
    w.terminals.iter().map(|t| t.name.clone()).collect()
}

#[test]
fn initial_state_has_one_workspace() {
    let s = AppState::initial();
    assert_eq!(names(&s), vec!["Workspace"]);
    assert_eq!(tab_names(&s.workspaces[0]), vec!["Workspace"]);
    assert_eq!(s.workspaces[0].terminals[0].panes[0].name, "Workspace");
    assert_eq!(s.theme_name.as_deref(), Some("zed_dark"));
    assert_eq!(s.font_size_bits, 16.0f32.to_bits());
    assert_eq!(s.theme.bg_main, Theme::zed_dark().bg_main);
}

#[test]
fn moving_a_workspace_carries_the_active_one() {
    let mut s = state(vec![ws("A", &["a"]), ws("B", &["b"]), ws("C", &["c"])]);
    assert!(s.move_dir(0, 3));
    assert_eq!(names(&s), vec!["B", "C", "A"]);
    assert_eq!(s.active_workspace, 2);
    assert!(s.move_dir(2, 0));
    assert_eq!(names(&s), vec!["A", "B", "C"]);
    assert_eq!(s.active_workspace, 0);
    assert!(!s.move_dir(1, 1));
    assert!(!s.move_dir(5, 0));
    assert!(!s.move_dir(0, 4));
    assert_eq!(names(&s), vec!["A", "B", "C"]);
}

#[test]
fn moving_before_the_active_keeps_its_number() {
    let mut s = state(vec![ws("A", &["a"]), ws("B", &["b"]), ws("C", &["c"])]);
    s.active_workspace = 1;
    assert!(s.move_dir(0, 3));
    assert_eq!(names(&s), vec!["B", "C", "A"]);
    assert_eq!(s.active_workspace, 1);
}

#[test]
fn selecting_checks_the_range() {
    let mut s = state(vec![ws("A", &["a", "b"]), ws("B", &["c"])]);
    assert!(s.select_dir(1));
    assert_eq!(s.active_workspace, 1);
    assert!(!s.select_dir(2));
    assert_eq!(s.active_workspace, 1);
    assert!(!s.select_term(1));
    assert!(s.select_dir(0));
    assert!(s.select_term(1));
    assert_eq!(s.workspaces[0].active_term, 1);
}

#[test]
fn deleting_workspaces_keeps_the_last_one() {
    let mut s = state(vec![ws("A", &["a"]), ws("B", &["b"])]);
    s.active_workspace = 1;
    assert!(s.delete_dir(1));
    assert_eq!(names(&s), vec!["A"]);
    assert_eq!(s.active_workspace, 0);
    assert!(!s.delete_dir(0));
    assert_eq!(names(&s), vec!["A"]);
}

#[test]
fn moving_tabs_in_the_active_workspace() {
    let mut s = state(vec![ws("A", &["x", "y", "z"])]);
    s.workspaces[0].active_term = 2;
    assert!(s.move_tab(2, 0));
    assert_eq!(tab_names(&s.workspaces[0]), vec!["z", "x", "y"]);
    assert_eq!(s.workspaces[0].active_term, 0);
    assert!(s.move_tab(0, 2));
    assert_eq!(tab_names(&s.workspaces[0]), vec!["x", "z", "y"]);
    assert!(!s.move_tab(0, 4));
}

#[test]
fn closing_tabs_and_workspaces() {
    let mut s = state(vec![ws("A", &["x", "y"]), ws("B", &["z"])]);
    s.workspaces[0].active_term = 1;
    assert_eq!(s.close_tab(0, 1), CloseOutcome::TabClosed);
    assert_eq!(tab_names(&s.workspaces[0]), vec!["x"]);
    assert_eq!(s.workspaces[0].active_term, 0);
    assert_eq!(s.close_tab(7, 0), CloseOutcome::NoSuchWorkspace);
    s.active_workspace = 1;
    assert_eq!(s.close_tab(1, 0), CloseOutcome::WorkspaceClosed);
    assert_eq!(names(&s), vec!["A"]);
    assert_eq!(s.active_workspace, 0);
    assert_eq!(s.delete_term(0), CloseOutcome::LastTab);
    assert_eq!(names(&s), vec!["A"]);
}

#[test]
fn adding_tabs_and_workspaces() {
    let mut s = state(vec![ws("A", &["x"])]);
    assert!(s.add_term(Some("/tmp".to_string()), None));
    assert_eq!(tab_names(&s.workspaces[0]), vec!["x", "Terminal"]);
    assert_eq!(s.workspaces[0].active_term, 1);
    assert_eq!(s.workspaces[0].terminals[1].panes[0].cwd.as_deref(), Some("/tmp"));
    s.add_dir(None, Some("sess".to_string()));
    assert_eq!(names(&s), vec!["A", "Workspace 2"]);
    assert_eq!(s.active_workspace, 1);
    assert_eq!(tab_names(&s.workspaces[1]), vec!["Workspace"]);
    assert_eq!(s.workspaces[1].terminals[0].panes[0].session_name.as_deref(), Some("sess"));
    s.active_workspace = 9;
    assert!(!s.add_term(None, None));
}

#[test]
fn renaming() {
    let mut s = state(vec![ws("A", &["x", "y"]), ws("B", &["z"])]);
    assert!(s.rename_tab(1, "logs".to_string()));
    assert_eq!(tab_names(&s.workspaces[0]), vec!["x", "logs"]);
    assert!(s.rename_dir(1, "Build".to_string()));
    assert_eq!(names(&s), vec!["A", "Build"]);
    assert!(!s.rename_dir(2, "nope".to_string()));
}

#[test]
fn theme_switch_records_the_name() {
    let mut s = state(vec![ws("A", &["x"])]);
    s.set_theme("nord");
    assert_eq!(s.theme_name.as_deref(), Some("nord"));
    assert_eq!(s.theme.bg_main, Theme::nord().bg_main);
}

#[test]
fn repairing_a_loaded_state() {
    let mut empty = state(vec![]);
    empty.active_workspace = 4;
    empty.theme_name = Some("dracula".to_string());
    empty.repair();
    assert_eq!(names(&empty), vec!["Workspace"]);
    assert_eq!(tab_names(&empty.workspaces[0]), vec!["Workspace"]);
    assert_eq!(empty.active_workspace, 0);
    assert_eq!(empty.theme.bg_main, Theme::dracula().bg_main);

    let mut s = state(vec![
        WorkspaceData { name: "Bare".to_string(), terminals: vec![], active_term: 3 },
        WorkspaceData {
            name: "Odd".to_string(),
            terminals: vec![TabData { name: "t".into(), panes: vec![], active_pane: 2, root: SplitNode::Leaf(5) }],
            active_term: 8,
        },
    ]);
    s.active_workspace = 5;
    s.theme_name = None;
    s.repair();
    assert_eq!(s.active_workspace, 1);
    assert_eq!(tab_names(&s.workspaces[0]), vec!["Bare"]);
    assert_eq!(s.workspaces[0].terminals[0].panes[0].name, "Bare");
    assert_eq!(s.workspaces[0].active_term, 0);
    assert_eq!(s.workspaces[1].terminals[0].panes[0].name, "t");
    assert_eq!(s.workspaces[1].terminals[0].root, SplitNode::Leaf(0));
    assert_eq!(s.workspaces[1].active_term, 0);
    assert_eq!(s.theme.bg_main, Theme::zed_dark().bg_main);
}
