use vterm::split_tree::{build_balanced, contains_leaf, leaves, remove_leaf, renumber_tree, replace_leaf, SplitDir, SplitNode, HALF_RATIO_BITS};
use vterm::state::{TabData, TerminalData};
use vterm::theme::Theme;
use vterm::workspace::{AppState, WorkspaceData, DEFAULT_FONT_SIZE_BITS};

fn pane(name: &str) -> TerminalData {
    TerminalData { name: name.to_string(), cwd: None, session_name: None }
}

#[test]
fn state_test_default_app_state() {
    let state = AppState {
        workspaces: vec![WorkspaceData {
            name: "Workspace".into(),
            terminals: vec![TabData::single(TerminalData {
                name: "Terminal".into(),
                cwd: None,
                session_name: None,
            })],
            active_term: 0,
        }],
        active_workspace: 0,
        theme: Theme::ubuntu(),
        theme_name: Some("ubuntu".to_string()),
        font_size_bits: DEFAULT_FONT_SIZE_BITS,
    };
    assert_eq!(state.workspaces.len(), 1);
    assert_eq!(state.workspaces[0].name, "Workspace");
    assert_eq!(state.workspaces[0].terminals.len(), 1);
    assert_eq!(state.workspaces[0].terminals[0].panes[0].name, "Terminal");
}

#[test]
fn split_then_close_round_trips() {
    let mut tab = TabData::single(pane("Term"));
    let second = tab.split_pane(0, SplitDir::Vertical);
    assert_eq!(second, 1);
    assert_eq!(tab.panes.len(), 2);
    assert_eq!(tab.leaves(), vec![0, 1]);
    assert!(matches!(tab.root, SplitNode::Split { dir: SplitDir::Vertical, .. }));

    let third = tab.split_pane(1, SplitDir::Horizontal);
    assert_eq!(tab.panes.len(), 3);
    assert_eq!(tab.leaves().len(), 3);

    assert!(tab.close_pane(third));
    assert_eq!(tab.panes.len(), 2);
    assert_eq!(tab.leaves(), vec![0, 1]);
    assert!(tab.close_pane(1));
    assert_eq!(tab.root, SplitNode::Leaf(0));
    assert!(!tab.close_pane(0), "last pane must not close");
}

#[test]
fn normalize_repairs_dangling_trees() {
    let mut tab = TabData { name: "T".into(), panes: vec![pane("a")], active_pane: 7, root: SplitNode::Leaf(9) };
    tab.normalize();
    assert_eq!(tab.root, SplitNode::Leaf(0));
    assert_eq!(tab.active_pane, 0);
}

#[test]
fn split_names_and_places_the_new_pane() {
    let mut tab = TabData::single(TerminalData { name: "Term".into(), cwd: Some("/tmp".into()), session_name: Some("s".into()) });
    tab.split_pane(0, SplitDir::Horizontal);
    assert_eq!(tab.panes[1].name, "Term 2");
    assert_eq!(tab.panes[1].cwd.as_deref(), Some("/tmp"));
    assert_eq!(tab.panes[1].session_name, None);
    assert_eq!(tab.active_pane, 1);
    assert_eq!(
        tab.root,
        SplitNode::Split {
            dir: SplitDir::Horizontal,
            ratio_bits: HALF_RATIO_BITS,
            first: Box::new(SplitNode::Leaf(0)),
            second: Box::new(SplitNode::Leaf(1)),
        }
    );
    // An out-of-range pane index is clamped to the last pane.
    let third = tab.split_pane(42, SplitDir::Vertical);
    assert_eq!(third, 2);
    assert_eq!(tab.panes[2].name, "Term 2 3");
}

#[test]
fn split_then_close_restores_the_tab() {
    let mut tab = TabData::single(pane("a"));
    tab.split_pane(0, SplitDir::Vertical);
    let before_leaves = tab.leaves();
    let before_panes = tab.panes.len();
    let new = tab.split_pane(1, SplitDir::Horizontal);
    assert!(tab.close_pane(new));
    assert_eq!(tab.leaves(), before_leaves);
    assert_eq!(tab.panes.len(), before_panes);
}

#[test]
fn normalize_keeps_live_leaves_and_appends_orphans() {
    let tree = SplitNode::Split {
        dir: SplitDir::Vertical,
        ratio_bits: HALF_RATIO_BITS,
        first: Box::new(SplitNode::Leaf(2)),
        second: Box::new(SplitNode::Split {
            dir: SplitDir::Horizontal,
            ratio_bits: HALF_RATIO_BITS,
            first: Box::new(SplitNode::Leaf(2)),
            second: Box::new(SplitNode::Leaf(7)),
        }),
    };
    let mut tab = TabData { name: "T".into(), panes: vec![pane("a"), pane("b"), pane("c")], active_pane: 1, root: tree };
    tab.normalize();
    assert_eq!(tab.leaves(), vec![2, 0, 1]);
    assert_eq!(tab.active_pane, 1);

    let mut empty = TabData { name: String::new(), panes: vec![], active_pane: 3, root: SplitNode::Leaf(4) };
    empty.normalize();
    assert_eq!(empty.panes.len(), 1);
    assert_eq!(empty.panes[0].name, "Terminal");
    assert_eq!(empty.root, SplitNode::Leaf(0));
    assert_eq!(empty.active_pane, 0);
}

#[test]
fn display_name_falls_back_to_the_first_pane() {
    let tab = TabData::single(pane("shell"));
    assert_eq!(tab.display_name(), "shell");
    let unnamed = TabData { name: String::new(), panes: vec![pane("p")], active_pane: 0, root: SplitNode::Leaf(0) };
    assert_eq!(unnamed.display_name(), "p");
    let bare = TabData { name: String::new(), panes: vec![], active_pane: 0, root: SplitNode::Leaf(0) };
    assert_eq!(bare.display_name(), "Terminal");
}

#[test]
fn tree_helpers() {
    let tree = build_balanced(&vec![0, 1, 2], 0);
    assert_eq!(leaves(&tree), vec![0, 1, 2]);
    assert!(contains_leaf(&tree, 2));
    assert!(!contains_leaf(&tree, 3));
    let removed = remove_leaf(tree, 1).unwrap();
    assert_eq!(leaves(&removed), vec![0, 2]);
    let renumbered = renumber_tree(removed, 1);
    assert_eq!(leaves(&renumbered), vec![0, 1]);
    let replaced = replace_leaf(renumbered, 1, SplitNode::Leaf(5));
    assert_eq!(leaves(&replaced), vec![0, 5]);
    assert_eq!(remove_leaf(SplitNode::Leaf(0), 0), None);
    assert_eq!(build_balanced(&vec![], 0), SplitNode::Leaf(0));
}

#[test]
fn normalizing_twice_changes_nothing_more() {
    let tree = SplitNode::Split {
        dir: SplitDir::Horizontal,
        ratio_bits: HALF_RATIO_BITS,
        first: Box::new(SplitNode::Leaf(3)),
        second: Box::new(SplitNode::Split {
            dir: SplitDir::Vertical,
            ratio_bits: HALF_RATIO_BITS,
            first: Box::new(SplitNode::Leaf(1)),
            second: Box::new(SplitNode::Leaf(1)),
        }),
    };
    let mut tab = TabData { name: "T".into(), panes: vec![pane("a"), pane("b"), pane("c"), pane("d")], active_pane: 9, root: tree };
    tab.normalize();
    let balanced = build_balanced(&vec![3, 1, 0, 2], 0);
    assert_eq!(tab.root, balanced);
    assert_eq!(tab.active_pane, 3);
    tab.normalize();
    assert_eq!(tab.root, balanced);
    assert_eq!(tab.active_pane, 3);
    assert_eq!(tab.panes.len(), 4);
}
