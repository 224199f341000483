//! The persisted application state and the operations of the sidebar and
//! the tab bar on it: selecting, moving, adding, renaming and closing
//! workspaces and tabs, and repairing a state read back from disk.
//!
//! The application keeps, beside this state, one list of running
//! terminals per workspace, and applies to it the same moves and removals
//! that these operations report.

use vstd::prelude::*;
use crate::split_tree::{leaves_of, SplitNode};
use crate::state::{
    fallback_pane_name, is_pane_permutation, normalized_root, pane_views, tab_well_formed, PaneView, TabData,
    TerminalData,
};
use crate::text::{decimal_digits, numbered_name};
use crate::theme::{theme_named, Theme};

verus! {

/// One workspace (a sidebar entry): its name, its tabs and the active tab.
pub struct WorkspaceData {
    pub name: String,
    pub terminals: Vec<TabData>,
    pub active_term: usize,
}

/// The terminal font size a fresh state starts with, 16.0 points, as the
/// bits of an `f32`.
pub const DEFAULT_FONT_SIZE_BITS: u32 = 0x4180_0000;

/// Everything that survives a restart.
pub struct AppState {
    pub workspaces: Vec<WorkspaceData>,
    pub active_workspace: usize,
    pub theme_name: Option<String>,
    /// The terminal font size in points, as the bits of an `f32`.
    pub font_size_bits: u32,
    pub theme: Theme,
}

/// A workspace is well formed when it has a tab, its active tab is one of
/// them, and every tab is well formed.
pub open spec fn workspace_well_formed(ws: WorkspaceData) -> bool {
    &&& ws.terminals@.len() >= 1
    &&& ws.active_term < ws.terminals@.len()
    &&& forall|i: int| 0 <= i < ws.terminals@.len() ==> tab_well_formed(&#[trigger] ws.terminals@[i])
}

/// The state is well formed when it has a workspace, the active one is
/// among them, and every workspace is well formed: there is always an
/// active workspace with an active tab to show.
pub open spec fn app_well_formed(s: &AppState) -> bool {
    &&& s.workspaces@.len() >= 1
    &&& s.active_workspace < s.workspaces@.len()
    &&& forall|i: int|
        0 <= i < s.workspaces@.len() ==> workspace_well_formed(#[trigger] s.workspaces@[i])
}

/// Where an item dropped before position `to` lands once it has been taken
/// out of position `from`.
pub open spec fn drop_position(from: int, to: int) -> int {
    if from < to {
        to - 1
    } else {
        to
    }
}

/// `s` with the item at `from` moved in front of the item at `to` (or to
/// the end when `to` is the length).
pub open spec fn moved<T>(s: Seq<T>, from: int, to: int) -> Seq<T> {
    s.remove(from).insert(drop_position(from, to), s[from])
}

/// Where the item at index `i` sits after the move of `moved`.
pub open spec fn moved_index(i: int, from: int, to: int) -> int {
    let d = drop_position(from, to);
    if i == from {
        d
    } else {
        let r = if i > from {
            i - 1
        } else {
            i
        };
        if r >= d {
            r + 1
        } else {
            r
        }
    }
}

/// The active index after a move: it follows the moved item when that was
/// the active one, and is kept as a number otherwise.
pub open spec fn active_after_move(active: int, from: int, to: int) -> int {
    if active == from {
        drop_position(from, to)
    } else {
        active
    }
}

/// The active index after the item at `removed` is taken out of `len`
/// items: clamped to the new last item.
pub open spec fn active_after_remove(active: int, len: int) -> int {
    if active >= len - 1 {
        len - 2
    } else {
        active
    }
}

/// Moving an item keeps the length and the items: every item of the moved
/// sequence is one of the input, and each input item sits at the
/// index `moved_index` gives (the moved one where it was dropped).
pub proof fn law_moved_keeps_items<T>(s: Seq<T>, from: int, to: int)
    requires
        0 <= from < s.len(),
        0 <= to <= s.len(),
    ensures
        moved(s, from, to).len() == s.len(),
        forall|i: int|
            0 <= i < s.len() ==> exists|j: int| 0 <= j < s.len() && #[trigger] moved(s, from, to)[i] == s[j],
        forall|i: int| 0 <= i < s.len() ==> moved(s, from, to)[#[trigger] moved_index(i, from, to)] == s[i],
{
    let d = drop_position(from, to);
    let m = moved(s, from, to);
    assert forall|i: int| 0 <= i < s.len() implies exists|j: int|
        0 <= j < s.len() && #[trigger] m[i] == s[j] by {
        if i < d {
            if i < from {
                assert(m[i] == s[i]);
            } else {
                assert(m[i] == s[i + 1]);
            }
        } else if i == d {
            assert(m[i] == s[from]);
        } else {
            if i - 1 < from {
                assert(m[i] == s[i - 1]);
            } else {
                assert(m[i] == s[i]);
            }
        }
    }
}

/// A state with no workspaces gets this one: named after the default
/// workspace name, with one tab of one pane of the same name.
pub open spec fn default_workspace_name() -> Seq<char> {
    "Workspace"@
}

/// What a tab made by `TabData::single` of a pane looks like.
pub open spec fn is_single_tab(tab: TabData, pane_name: Seq<char>) -> bool {
    &&& tab.name@ == pane_name
    &&& tab.panes@.len() == 1
    &&& tab.panes@[0]@.name == pane_name
    &&& tab.active_pane == 0
    &&& tab.root == SplitNode::Leaf(0)
}

/// `new` is what `TabData::normalize` makes of `old`.
pub open spec fn tab_repaired(new: TabData, old: TabData) -> bool {
    &&& new.name == old.name
    &&& pane_views(new.panes@) == if old.panes@.len() == 0 {
        seq![PaneView { name: fallback_pane_name(old.name@), cwd: None, session_name: None }]
    } else {
        pane_views(old.panes@)
    }
    &&& new.root == normalized_root(old.root, new.panes@.len())
    &&& new.active_pane == if old.active_pane < new.panes@.len() {
        old.active_pane as int
    } else {
        new.panes@.len() - 1
    }
    &&& tab_well_formed(&new)
}

/// `tab` is the normalised lone tab given to a workspace named `name` that
/// had none: it and its one pane carry the workspace's name.
pub open spec fn fresh_tab(tab: TabData, name: Seq<char>) -> bool {
    &&& tab.name@ == name
    &&& pane_views(tab.panes@) == seq![PaneView { name, cwd: None, session_name: None }]
    &&& tab.root == normalized_root(SplitNode::Leaf(0), 1)
    &&& tab.active_pane == 0
    &&& tab_well_formed(&tab)
}

/// `new` is what loading makes of workspace `old`: a lone fresh tab when
/// it had none, every tab normalised, the active tab clamped.
pub open spec fn workspace_repaired(new: WorkspaceData, old: WorkspaceData) -> bool {
    &&& new.name == old.name
    &&& if old.terminals@.len() == 0 {
        new.terminals@.len() == 1 && fresh_tab(new.terminals@[0], old.name@)
    } else {
        new.terminals@.len() == old.terminals@.len() && forall|j: int|
            0 <= j < old.terminals@.len() ==> tab_repaired(#[trigger] new.terminals@[j], old.terminals@[j])
    }
    &&& new.active_term == if old.active_term < new.terminals@.len() {
        old.active_term as int
    } else {
        new.terminals@.len() - 1
    }
}

/// Every tab of the state has a tree and a pane list whose lengths fit the
/// machine's indices.
pub open spec fn tabs_fit(s: &AppState) -> bool {
    forall|i: int, j: int|
        0 <= i < s.workspaces@.len() && 0 <= j < s.workspaces@[i].terminals@.len() ==> {
            let t = #[trigger] s.workspaces@[i].terminals@[j];
            &&& leaves_of(t.root).len() <= usize::MAX
            &&& t.panes@.len() < usize::MAX
        }
}

/// How a request to close a tab ended.
#[derive(Clone, Copy, PartialEq, Eq, Debug)]
pub enum CloseOutcome {
    /// No workspace has that index; nothing changed.
    NoSuchWorkspace,
    /// The tab was removed from its workspace.
    TabClosed,
    /// It was the workspace's only tab, so the workspace was removed.
    WorkspaceClosed,
    /// It was the last tab of the last workspace; nothing changed and the
    /// application quits.
    LastTab,
}

/// A single-pane tab is well formed.
proof fn lemma_single_tab_well_formed(tab: &TabData, name: Seq<char>)
    requires
        is_single_tab(*tab, name),
    ensures
        tab_well_formed(tab),
{
    let ls = leaves_of(tab.root);
    assert(ls =~= seq![0usize]);
    assert(ls.contains(0usize)) by {
        assert(ls[0] == 0usize);
    }
    assert(is_pane_permutation(ls, 1));
}

/// A single-pane tab named `name` holding a pane with the given working
/// directory and session.
fn single_tab(name: &str, cwd: Option<String>, session_name: Option<String>) -> (tab: TabData)
    ensures
        is_single_tab(tab, name@),
        tab.panes@[0]@.cwd == cwd.deep_view(),
        tab.panes@[0]@.session_name == session_name.deep_view(),
        tab_well_formed(&tab),
{
    let pane = TerminalData { name: name.to_owned(), cwd, session_name };
    let ghost pv = pane@;
    let tab = TabData::single(pane);
    assert(pane_views(tab.panes@).len() == 1);
    assert(pane_views(tab.panes@)[0] == pv);
    proof {
        lemma_single_tab_well_formed(&tab, name@);
    }
    tab
}

impl WorkspaceData {
    /// A workspace named `name` with one single-pane tab whose pane is named
    /// `pane_name`.
    fn with_one_tab(name: String, pane_name: &str, cwd: Option<String>, session_name: Option<String>) -> (ws:
        WorkspaceData)
        ensures
            ws.name == name,
            ws.terminals@.len() == 1,
            is_single_tab(ws.terminals@[0], pane_name@),
            ws.terminals@[0].panes@[0]@.cwd == cwd.deep_view(),
            ws.terminals@[0].panes@[0]@.session_name == session_name.deep_view(),
            ws.active_term == 0,
            workspace_well_formed(ws),
    {
        let tab = single_tab(pane_name, cwd, session_name);
        let terminals = vec![tab];
        WorkspaceData { name, terminals, active_term: 0 }
    }
}

impl AppState {
    /// The state of a first start: one workspace named `Workspace` with one
    /// tab, the `zed_dark` theme, the default font size.
    pub fn initial() -> (s: AppState)
        ensures
            app_well_formed(&s),
            s.workspaces@.len() == 1,
            s.workspaces@[0].name@ == default_workspace_name(),
            s.workspaces@[0].terminals@.len() == 1,
            is_single_tab(s.workspaces@[0].terminals@[0], default_workspace_name()),
            s.workspaces@[0].terminals@[0].panes@[0]@.cwd is None,
            s.workspaces@[0].terminals@[0].panes@[0]@.session_name is None,
            s.workspaces@[0].active_term == 0,
            s.active_workspace == 0,
            s.theme_name matches Some(n) && n@ == "zed_dark"@,
            s.font_size_bits == DEFAULT_FONT_SIZE_BITS,
            s.theme@ == theme_named(None),
    {
        let ws = WorkspaceData::with_one_tab("Workspace".to_owned(), "Workspace", None, None);
        let workspaces = vec![ws];
        AppState {
            workspaces,
            active_workspace: 0,
            theme_name: Some("zed_dark".to_owned()),
            font_size_bits: DEFAULT_FONT_SIZE_BITS,
            theme: Theme::default(),
        }
    }

    /// Makes workspace `idx` the active one, if there is one at `idx`.
    /// Returns whether it did.
    pub fn select_dir(&mut self, idx: usize) -> (selected: bool)
        ensures
            selected == (idx < old(self).workspaces@.len()),
            final(self).workspaces == old(self).workspaces,
            final(self).active_workspace == if selected {
                idx
            } else {
                old(self).active_workspace
            },
            final(self).theme_name == old(self).theme_name,
            final(self).font_size_bits == old(self).font_size_bits,
            final(self).theme == old(self).theme,
            app_well_formed(old(self)) ==> app_well_formed(final(self)),
    {
        if idx < self.workspaces.len() {
            self.active_workspace = idx;
            true
        } else {
            false
        }
    }

    /// Drags workspace `from` in front of workspace `to` (`to` equal to the
    /// count drops it at the end). The active workspace follows the moved
    /// one when that was active. Returns whether anything moved: nothing
    /// does when `from == to` or an index is out of range.
    pub fn move_dir(&mut self, from: usize, to: usize) -> (did_move: bool)
        ensures
            did_move == (from != to && from < old(self).workspaces@.len() && to
                <= old(self).workspaces@.len()),
            did_move ==> final(self).workspaces@ == moved(old(self).workspaces@, from as int, to as int),
            did_move ==> final(self).active_workspace == active_after_move(
                old(self).active_workspace as int,
                from as int,
                to as int,
            ),
            !did_move ==> final(self).workspaces == old(self).workspaces
                && final(self).active_workspace == old(self).active_workspace,
            final(self).theme_name == old(self).theme_name,
            final(self).font_size_bits == old(self).font_size_bits,
            final(self).theme == old(self).theme,
            app_well_formed(old(self)) ==> app_well_formed(final(self)),
    {
        if from != to && from < self.workspaces.len() && to <= self.workspaces.len() {
            let ghost before = self.workspaces@;
            let ws = self.workspaces.remove(from);
            let new_to = if from < to {
                to - 1
            } else {
                to
            };
            self.workspaces.insert(new_to, ws);
            if self.active_workspace == from {
                self.active_workspace = new_to;
            }
            proof {
                law_moved_keeps_items(before, from as int, to as int);
                assert(self.workspaces@ =~= moved(before, from as int, to as int));
            }
            true
        } else {
            false
        }
    }

    /// Removes workspace `idx`, clamping the active index. The last
    /// workspace is never removed: then nothing changes, the result is
    /// false, and the application quits.
    pub fn delete_dir(&mut self, idx: usize) -> (removed: bool)
        requires
            old(self).workspaces@.len() > 1 ==> idx < old(self).workspaces@.len(),
        ensures
            removed == (old(self).workspaces@.len() > 1),
            removed ==> final(self).workspaces@ == old(self).workspaces@.remove(idx as int),
            removed ==> final(self).active_workspace == active_after_remove(
                old(self).active_workspace as int,
                old(self).workspaces@.len() as int,
            ),
            !removed ==> final(self).workspaces == old(self).workspaces
                && final(self).active_workspace == old(self).active_workspace,
            final(self).theme_name == old(self).theme_name,
            final(self).font_size_bits == old(self).font_size_bits,
            final(self).theme == old(self).theme,
            app_well_formed(old(self)) ==> app_well_formed(final(self)),
    {
        if self.workspaces.len() > 1 {
            self.workspaces.remove(idx);
            if self.active_workspace >= self.workspaces.len() {
                self.active_workspace = self.workspaces.len() - 1;
            }
            proof {
                if app_well_formed(old(self)) {
                    assert forall|i: int| 0 <= i < self.workspaces@.len() implies workspace_well_formed(
                        #[trigger] self.workspaces@[i],
                    ) by {
                        if i < idx {
                            assert(self.workspaces@[i] == old(self).workspaces@[i]);
                        } else {
                            assert(self.workspaces@[i] == old(self).workspaces@[i + 1]);
                        }
                    }
                }
            }
            true
        } else {
            false
        }
    }

    /// Makes tab `idx` of the active workspace the active tab, if the
    /// workspace has one at `idx`. Returns whether it did.
    pub fn select_term(&mut self, idx: usize) -> (selected: bool)
        ensures
            ({
                let a = old(self).active_workspace as int;
                let ws = old(self).workspaces@;
                &&& selected == (a < ws.len() && idx < ws[a].terminals@.len())
                &&& selected ==> final(self).workspaces@.len() == ws.len() && (forall|i: int|
                    0 <= i < ws.len() && i != a ==> #[trigger] final(self).workspaces@[i] == ws[i])
                    && final(self).workspaces@[a].name == ws[a].name
                    && final(self).workspaces@[a].terminals == ws[a].terminals
                    && final(self).workspaces@[a].active_term == idx
                &&& !selected ==> final(self).workspaces == old(self).workspaces
            }),
            final(self).active_workspace == old(self).active_workspace,
            final(self).theme_name == old(self).theme_name,
            final(self).font_size_bits == old(self).font_size_bits,
            final(self).theme == old(self).theme,
            app_well_formed(old(self)) ==> app_well_formed(final(self)),
    {
        let a = self.active_workspace;
        if a < self.workspaces.len() && idx < self.workspaces[a].terminals.len() {
            let mut ws = self.workspaces.remove(a);
            ws.active_term = idx;
            self.workspaces.insert(a, ws);
            proof {
                assert forall|i: int|
                    0 <= i < old(self).workspaces@.len() && i != a implies #[trigger] self.workspaces@[i]
                    == old(self).workspaces@[i] by {}
                if app_well_formed(old(self)) {
                    assert forall|i: int| 0 <= i < self.workspaces@.len() implies workspace_well_formed(
                        #[trigger] self.workspaces@[i],
                    ) by {
                        if i != a {
                            assert(self.workspaces@[i] == old(self).workspaces@[i]);
                        } else {
                            assert(workspace_well_formed(old(self).workspaces@[i]));
                        }
                    }
                }
            }
            true
        } else {
            false
        }
    }

    /// Drags tab `from` of the active workspace in front of its tab `to`
    /// (`to` equal to the count drops it at the end). The active tab follows
    /// the moved one when that was active. Returns whether anything moved.
    pub fn move_tab(&mut self, from: usize, to: usize) -> (did_move: bool)
        ensures
            ({
                let a = old(self).active_workspace as int;
                let ws = old(self).workspaces@;
                &&& did_move == (a < ws.len() && from != to && from < ws[a].terminals@.len() && to
                    <= ws[a].terminals@.len())
                &&& did_move ==> final(self).workspaces@.len() == ws.len() && (forall|i: int|
                    0 <= i < ws.len() && i != a ==> #[trigger] final(self).workspaces@[i] == ws[i])
                    && final(self).workspaces@[a].name == ws[a].name
                    && final(self).workspaces@[a].terminals@ == moved(
                        ws[a].terminals@,
                        from as int,
                        to as int,
                    ) && final(self).workspaces@[a].active_term == active_after_move(
                        ws[a].active_term as int,
                        from as int,
                        to as int,
                    )
                &&& !did_move ==> final(self).workspaces == old(self).workspaces
            }),
            final(self).active_workspace == old(self).active_workspace,
            final(self).theme_name == old(self).theme_name,
            final(self).font_size_bits == old(self).font_size_bits,
            final(self).theme == old(self).theme,
            app_well_formed(old(self)) ==> app_well_formed(final(self)),
    {
        let a = self.active_workspace;
        if a < self.workspaces.len() && from != to && from < self.workspaces[a].terminals.len() && to
            <= self.workspaces[a].terminals.len() {
            let mut ws = self.workspaces.remove(a);
            let ghost before = ws.terminals@;
            let tab = ws.terminals.remove(from);
            let new_to = if from < to {
                to - 1
            } else {
                to
            };
            ws.terminals.insert(new_to, tab);
            if ws.active_term == from {
                ws.active_term = new_to;
            }
            proof {
                law_moved_keeps_items(before, from as int, to as int);
                assert(ws.terminals@ =~= moved(before, from as int, to as int));
            }
            self.workspaces.insert(a, ws);
            proof {
                assert forall|i: int|
                    0 <= i < old(self).workspaces@.len() && i != a implies #[trigger] self.workspaces@[i]
                    == old(self).workspaces@[i] by {}
                if app_well_formed(old(self)) {
                    assert forall|i: int| 0 <= i < self.workspaces@.len() implies workspace_well_formed(
                        #[trigger] self.workspaces@[i],
                    ) by {
                        if i != a {
                            assert(self.workspaces@[i] == old(self).workspaces@[i]);
                        } else {
                            let w = self.workspaces@[i];
                            assert(workspace_well_formed(old(self).workspaces@[i]));
                            assert forall|k: int| 0 <= k < w.terminals@.len() implies tab_well_formed(
                                &#[trigger] w.terminals@[k],
                            ) by {
                                assert(exists|j: int|
                                    0 <= j < before.len() && #[trigger] moved(
                                        before,
                                        from as int,
                                        to as int,
                                    )[k] == before[j]);
                            }
                        }
                    }
                }
            }
            true
        } else {
            false
        }
    }

    /// Closes tab `tab_idx` of workspace `ws_idx`. A workspace that would
    /// be left with no tab is removed instead, and the last tab of the last
    /// workspace is kept: then the application quits. Active indices are
    /// clamped to what is left.
    pub fn close_tab(&mut self, ws_idx: usize, tab_idx: usize) -> (outcome: CloseOutcome)
        requires
            ws_idx < old(self).workspaces@.len() && old(self).workspaces@[ws_idx as int].terminals@.len()
                > 1 ==> tab_idx < old(self).workspaces@[ws_idx as int].terminals@.len(),
        ensures
            ({
                let ws = old(self).workspaces@;
                let w = ws_idx as int;
                &&& outcome == if w >= ws.len() {
                    CloseOutcome::NoSuchWorkspace
                } else if ws[w].terminals@.len() > 1 {
                    CloseOutcome::TabClosed
                } else if ws.len() > 1 {
                    CloseOutcome::WorkspaceClosed
                } else {
                    CloseOutcome::LastTab
                }
                &&& outcome == CloseOutcome::TabClosed ==> final(self).workspaces@.len() == ws.len()
                    && (forall|i: int|
                    0 <= i < ws.len() && i != w ==> #[trigger] final(self).workspaces@[i] == ws[i])
                    && final(self).workspaces@[w].name == ws[w].name
                    && final(self).workspaces@[w].terminals@ == ws[w].terminals@.remove(tab_idx as int)
                    && final(self).workspaces@[w].active_term == active_after_remove(
                        ws[w].active_term as int,
                        ws[w].terminals@.len() as int,
                    ) && final(self).active_workspace == old(self).active_workspace
                &&& outcome == CloseOutcome::WorkspaceClosed ==> final(self).workspaces@ == ws.remove(w)
                    && final(self).active_workspace == active_after_remove(
                        old(self).active_workspace as int,
                        ws.len() as int,
                    )
                &&& (outcome == CloseOutcome::NoSuchWorkspace || outcome == CloseOutcome::LastTab)
                    ==> final(self).workspaces == old(self).workspaces && final(self).active_workspace
                    == old(self).active_workspace
            }),
            final(self).theme_name == old(self).theme_name,
            final(self).font_size_bits == old(self).font_size_bits,
            final(self).theme == old(self).theme,
            app_well_formed(old(self)) ==> app_well_formed(final(self)),
    {
        if ws_idx >= self.workspaces.len() {
            return CloseOutcome::NoSuchWorkspace;
        }
        if self.workspaces[ws_idx].terminals.len() > 1 {
            let mut ws = self.workspaces.remove(ws_idx);
            let ghost before = ws.terminals@;
            ws.terminals.remove(tab_idx);
            if ws.active_term >= ws.terminals.len() {
                ws.active_term = ws.terminals.len() - 1;
            }
            self.workspaces.insert(ws_idx, ws);
            proof {
                assert forall|i: int|
                    0 <= i < old(self).workspaces@.len() && i != ws_idx implies #[trigger] self.workspaces@[i]
                    == old(self).workspaces@[i] by {}
                if app_well_formed(old(self)) {
                    assert forall|i: int| 0 <= i < self.workspaces@.len() implies workspace_well_formed(
                        #[trigger] self.workspaces@[i],
                    ) by {
                        if i != ws_idx {
                            assert(self.workspaces@[i] == old(self).workspaces@[i]);
                        } else {
                            let w = self.workspaces@[i];
                            assert(workspace_well_formed(old(self).workspaces@[i]));
                            assert forall|k: int| 0 <= k < w.terminals@.len() implies tab_well_formed(
                                &#[trigger] w.terminals@[k],
                            ) by {
                                if k < tab_idx {
                                    assert(w.terminals@[k] == before[k]);
                                } else {
                                    assert(w.terminals@[k] == before[k + 1]);
                                }
                            }
                        }
                    }
                }
            }
            CloseOutcome::TabClosed
        } else if self.workspaces.len() > 1 {
            self.workspaces.remove(ws_idx);
            if self.active_workspace >= self.workspaces.len() {
                self.active_workspace = self.workspaces.len() - 1;
            }
            proof {
                if app_well_formed(old(self)) {
                    assert forall|i: int| 0 <= i < self.workspaces@.len() implies workspace_well_formed(
                        #[trigger] self.workspaces@[i],
                    ) by {
                        if i < ws_idx {
                            assert(self.workspaces@[i] == old(self).workspaces@[i]);
                        } else {
                            assert(self.workspaces@[i] == old(self).workspaces@[i + 1]);
                        }
                    }
                }
            }
            CloseOutcome::WorkspaceClosed
        } else {
            CloseOutcome::LastTab
        }
    }

    /// Closes tab `idx` of the active workspace, as `close_tab` does.
    pub fn delete_term(&mut self, idx: usize) -> (outcome: CloseOutcome)
        requires
            old(self).active_workspace < old(self).workspaces@.len() && old(self).workspaces@[old(self).active_workspace as int].terminals@.len() > 1 ==> idx < old(self).workspaces@[old(self).active_workspace as int].terminals@.len(),
        ensures
            ({
                let ws = old(self).workspaces@;
                let w = old(self).active_workspace as int;
                &&& outcome == if w >= ws.len() {
                    CloseOutcome::NoSuchWorkspace
                } else if ws[w].terminals@.len() > 1 {
                    CloseOutcome::TabClosed
                } else if ws.len() > 1 {
                    CloseOutcome::WorkspaceClosed
                } else {
                    CloseOutcome::LastTab
                }
                &&& outcome == CloseOutcome::TabClosed ==> final(self).workspaces@.len() == ws.len()
                    && (forall|i: int|
                    0 <= i < ws.len() && i != w ==> #[trigger] final(self).workspaces@[i] == ws[i])
                    && final(self).workspaces@[w].name == ws[w].name
                    && final(self).workspaces@[w].terminals@ == ws[w].terminals@.remove(idx as int)
                    && final(self).workspaces@[w].active_term == active_after_remove(
                        ws[w].active_term as int,
                        ws[w].terminals@.len() as int,
                    ) && final(self).active_workspace == old(self).active_workspace
                &&& outcome == CloseOutcome::WorkspaceClosed ==> final(self).workspaces@ == ws.remove(w)
                    && final(self).active_workspace == active_after_remove(w, ws.len() as int)
                &&& (outcome == CloseOutcome::NoSuchWorkspace || outcome == CloseOutcome::LastTab)
                    ==> final(self).workspaces == old(self).workspaces && final(self).active_workspace
                    == old(self).active_workspace
            }),
            final(self).theme_name == old(self).theme_name,
            final(self).font_size_bits == old(self).font_size_bits,
            final(self).theme == old(self).theme,
            app_well_formed(old(self)) ==> app_well_formed(final(self)),
    {
        let a = self.active_workspace;
        self.close_tab(a, idx)
    }

    /// Opens a tab in the active workspace, holding one pane named
    /// `Terminal` with the given working directory and session, and makes
    /// it active. Returns false, changing nothing, when there is no active
    /// workspace.
    pub fn add_term(&mut self, cwd: Option<String>, session_name: Option<String>) -> (added: bool)
        ensures
            ({
                let a = old(self).active_workspace as int;
                let ws = old(self).workspaces@;
                &&& added == (a < ws.len())
                &&& added ==> final(self).workspaces@.len() == ws.len() && (forall|i: int|
                    0 <= i < ws.len() && i != a ==> #[trigger] final(self).workspaces@[i] == ws[i])
                    && final(self).workspaces@[a].name == ws[a].name
                    && final(self).workspaces@[a].terminals@.len() == ws[a].terminals@.len() + 1
                    && final(self).workspaces@[a].terminals@.take(ws[a].terminals@.len() as int)
                    == ws[a].terminals@ && is_single_tab(
                    final(self).workspaces@[a].terminals@.last(),
                    "Terminal"@,
                ) && final(self).workspaces@[a].terminals@.last().panes@[0]@.cwd == cwd.deep_view()
                    && final(self).workspaces@[a].terminals@.last().panes@[0]@.session_name
                    == session_name.deep_view() && final(self).workspaces@[a].active_term
                    == ws[a].terminals@.len()
                &&& !added ==> final(self).workspaces == old(self).workspaces
            }),
            final(self).active_workspace == old(self).active_workspace,
            final(self).theme_name == old(self).theme_name,
            final(self).font_size_bits == old(self).font_size_bits,
            final(self).theme == old(self).theme,
            app_well_formed(old(self)) ==> app_well_formed(final(self)),
    {
        let a = self.active_workspace;
        if a < self.workspaces.len() {
            let tab = single_tab("Terminal", cwd, session_name);
            let mut ws = self.workspaces.remove(a);
            let ghost before = ws.terminals@;
            ws.terminals.push(tab);
            ws.active_term = ws.terminals.len() - 1;
            assert(ws.terminals@.take(before.len() as int) =~= before);
            self.workspaces.insert(a, ws);
            proof {
                assert forall|i: int|
                    0 <= i < old(self).workspaces@.len() && i != a implies #[trigger] self.workspaces@[i]
                    == old(self).workspaces@[i] by {}
                if app_well_formed(old(self)) {
                    assert forall|i: int| 0 <= i < self.workspaces@.len() implies workspace_well_formed(
                        #[trigger] self.workspaces@[i],
                    ) by {
                        if i != a {
                            assert(self.workspaces@[i] == old(self).workspaces@[i]);
                        } else {
                            let w = self.workspaces@[i];
                            assert(workspace_well_formed(old(self).workspaces@[i]));
                            assert forall|k: int| 0 <= k < w.terminals@.len() implies tab_well_formed(
                                &#[trigger] w.terminals@[k],
                            ) by {
                                if k < before.len() {
                                    assert(w.terminals@[k] == before[k]);
                                }
                            }
                        }
                    }
                }
            }
            true
        } else {
            false
        }
    }

    /// Opens a workspace named `Workspace N`, N the new workspace count,
    /// with one tab of one pane named `Workspace` in the given working
    /// directory and session, and makes it active.
    pub fn add_dir(&mut self, cwd: Option<String>, session_name: Option<String>)
        requires
            old(self).workspaces@.len() + 1 < usize::MAX,
        ensures
            ({
                let ws = old(self).workspaces@;
                let n = ws.len();
                let new_ws = final(self).workspaces@[n as int];
                &&& final(self).workspaces@.len() == n + 1
                &&& final(self).workspaces@.take(n as int) == ws
                &&& new_ws.name@ == default_workspace_name() + seq![' '] + decimal_digits(n + 1)
                &&& new_ws.terminals@.len() == 1
                &&& is_single_tab(new_ws.terminals@[0], default_workspace_name())
                &&& new_ws.terminals@[0].panes@[0]@.cwd == cwd.deep_view()
                &&& new_ws.terminals@[0].panes@[0]@.session_name == session_name.deep_view()
                &&& new_ws.active_term == 0
                &&& final(self).active_workspace == n
            }),
            final(self).theme_name == old(self).theme_name,
            final(self).font_size_bits == old(self).font_size_bits,
            final(self).theme == old(self).theme,
            app_well_formed(old(self)) ==> app_well_formed(final(self)),
    {
        proof {
            reveal_strlit("Workspace");
        }
        let n = self.workspaces.len();
        let name = numbered_name("Workspace", n + 1);
        let ws = WorkspaceData::with_one_tab(name, "Workspace", cwd, session_name);
        let ghost before = self.workspaces@;
        self.workspaces.push(ws);
        self.active_workspace = n;
        assert(self.workspaces@.take(n as int) =~= before);
        proof {
            if app_well_formed(old(self)) {
                assert forall|i: int| 0 <= i < self.workspaces@.len() implies workspace_well_formed(
                    #[trigger] self.workspaces@[i],
                ) by {
                    if i < n {
                        assert(self.workspaces@[i] == before[i]);
                    }
                }
            }
        }
    }

    /// Renames tab `idx` of the active workspace. Returns false, changing
    /// nothing, when there is no active workspace.
    pub fn rename_tab(&mut self, idx: usize, name: String) -> (renamed: bool)
        requires
            old(self).active_workspace < old(self).workspaces@.len() ==> idx < old(self).workspaces@[old(self).active_workspace as int].terminals@.len(),
        ensures
            ({
                let a = old(self).active_workspace as int;
                let ws = old(self).workspaces@;
                &&& renamed == (a < ws.len())
                &&& renamed ==> final(self).workspaces@.len() == ws.len() && (forall|i: int|
                    0 <= i < ws.len() && i != a ==> #[trigger] final(self).workspaces@[i] == ws[i])
                    && final(self).workspaces@[a].name == ws[a].name
                    && final(self).workspaces@[a].active_term == ws[a].active_term
                    && final(self).workspaces@[a].terminals@.len() == ws[a].terminals@.len() && (forall|
                    k: int,
                |
                    0 <= k < ws[a].terminals@.len() && k != idx ==> #[trigger] final(self).workspaces@[a].terminals@[k] == ws[a].terminals@[k])
                    && final(self).workspaces@[a].terminals@[idx as int].name == name
                    && final(self).workspaces@[a].terminals@[idx as int].panes
                    == ws[a].terminals@[idx as int].panes
                    && final(self).workspaces@[a].terminals@[idx as int].active_pane
                    == ws[a].terminals@[idx as int].active_pane
                    && final(self).workspaces@[a].terminals@[idx as int].root
                    == ws[a].terminals@[idx as int].root
                &&& !renamed ==> final(self).workspaces == old(self).workspaces
            }),
            final(self).active_workspace == old(self).active_workspace,
            final(self).theme_name == old(self).theme_name,
            final(self).font_size_bits == old(self).font_size_bits,
            final(self).theme == old(self).theme,
            app_well_formed(old(self)) ==> app_well_formed(final(self)),
    {
        let a = self.active_workspace;
        if a < self.workspaces.len() {
            let mut ws = self.workspaces.remove(a);
            let ghost before = ws.terminals@;
            let mut tab = ws.terminals.remove(idx);
            tab.name = name;
            ws.terminals.insert(idx, tab);
            self.workspaces.insert(a, ws);
            proof {
                assert forall|i: int|
                    0 <= i < old(self).workspaces@.len() && i != a implies #[trigger] self.workspaces@[i]
                    == old(self).workspaces@[i] by {}
                assert forall|k: int| 0 <= k < before.len() && k != idx implies #[trigger] self.workspaces@[a as int].terminals@[k]
                    == before[k] by {}
                if app_well_formed(old(self)) {
                    assert forall|i: int| 0 <= i < self.workspaces@.len() implies workspace_well_formed(
                        #[trigger] self.workspaces@[i],
                    ) by {
                        if i != a {
                            assert(self.workspaces@[i] == old(self).workspaces@[i]);
                        } else {
                            let w = self.workspaces@[i];
                            assert(workspace_well_formed(old(self).workspaces@[i]));
                            assert forall|k: int| 0 <= k < w.terminals@.len() implies tab_well_formed(
                                &#[trigger] w.terminals@[k],
                            ) by {
                                if k != idx {
                                    assert(w.terminals@[k] == before[k]);
                                } else {
                                    assert(tab_well_formed(&before[k]));
                                }
                            }
                        }
                    }
                }
            }
            true
        } else {
            false
        }
    }

    /// Renames workspace `idx`, if there is one. Returns whether it did.
    pub fn rename_dir(&mut self, idx: usize, name: String) -> (renamed: bool)
        ensures
            ({
                let ws = old(self).workspaces@;
                &&& renamed == (idx < ws.len())
                &&& renamed ==> final(self).workspaces@.len() == ws.len() && (forall|i: int|
                    0 <= i < ws.len() && i != idx ==> #[trigger] final(self).workspaces@[i] == ws[i])
                    && final(self).workspaces@[idx as int].name == name
                    && final(self).workspaces@[idx as int].terminals == ws[idx as int].terminals
                    && final(self).workspaces@[idx as int].active_term == ws[idx as int].active_term
                &&& !renamed ==> final(self).workspaces == old(self).workspaces
            }),
            final(self).active_workspace == old(self).active_workspace,
            final(self).theme_name == old(self).theme_name,
            final(self).font_size_bits == old(self).font_size_bits,
            final(self).theme == old(self).theme,
            app_well_formed(old(self)) ==> app_well_formed(final(self)),
    {
        if idx < self.workspaces.len() {
            let mut ws = self.workspaces.remove(idx);
            ws.name = name;
            self.workspaces.insert(idx, ws);
            proof {
                assert forall|i: int|
                    0 <= i < old(self).workspaces@.len() && i != idx implies #[trigger] self.workspaces@[i]
                    == old(self).workspaces@[i] by {}
                if app_well_formed(old(self)) {
                    assert forall|i: int| 0 <= i < self.workspaces@.len() implies workspace_well_formed(
                        #[trigger] self.workspaces@[i],
                    ) by {
                        if i != idx {
                            assert(self.workspaces@[i] == old(self).workspaces@[i]);
                        } else {
                            assert(workspace_well_formed(old(self).workspaces@[i]));
                        }
                    }
                }
            }
            true
        } else {
            false
        }
    }

    /// Switches to the theme called `name` (`zed_dark` for an unknown name)
    /// and records the name.
    pub fn set_theme(&mut self, name: &str)
        ensures
            final(self).theme@ == theme_named(Some(name@)),
            final(self).theme_name matches Some(n) && n@ == name@,
            final(self).workspaces == old(self).workspaces,
            final(self).active_workspace == old(self).active_workspace,
            final(self).font_size_bits == old(self).font_size_bits,
            app_well_formed(old(self)) ==> app_well_formed(final(self)),
    {
        self.theme = Theme::from_name(Some(name));
        self.theme_name = Some(name.to_owned());
    }

    /// Repairs a state read back from disk: the theme follows the saved
    /// name, a state with no workspace gets the default one, a workspace
    /// with no tab gets one named after it, every tab is normalised, and
    /// the active workspace and tabs are clamped. The result is well formed.
    pub fn repair(&mut self)
        requires
            tabs_fit(old(self)),
        ensures
            app_well_formed(final(self)),
            final(self).theme@ == theme_named(old(self).theme_name.deep_view()),
            final(self).theme_name == old(self).theme_name,
            final(self).font_size_bits == old(self).font_size_bits,
            old(self).workspaces@.len() == 0 ==> final(self).workspaces@.len() == 1
                && final(self).workspaces@[0].name@ == default_workspace_name()
                && final(self).workspaces@[0].terminals@.len() == 1 && fresh_tab(
                final(self).workspaces@[0].terminals@[0],
                default_workspace_name(),
            ) && final(self).workspaces@[0].active_term == 0,
            old(self).workspaces@.len() > 0 ==> final(self).workspaces@.len() == old(self).workspaces@.len() && forall|i: int|
                0 <= i < old(self).workspaces@.len() ==> workspace_repaired(
                    #[trigger] final(self).workspaces@[i],
                    old(self).workspaces@[i],
                ),
            final(self).active_workspace == if old(self).active_workspace < final(self).workspaces@.len() {
                old(self).active_workspace as int
            } else {
                final(self).workspaces@.len() - 1
            },
    {
        let name: Option<&str> = match &self.theme_name {
            Some(n) => Some(n.as_str()),
            None => None,
        };
        assert(match name {
            Some(n) => Some(n@),
            None => None,
        } == self.theme_name.deep_view());
        self.theme = Theme::from_name(name);
        proof {
            reveal_strlit("Workspace");
        }
        let was_empty = self.workspaces.len() == 0;
        if was_empty {
            let ws = WorkspaceData::with_one_tab("Workspace".to_owned(), "Workspace", None, None);
            self.workspaces.push(ws);
        }
        let ghost start = self.workspaces@;
        let n = self.workspaces.len();
        let mut i: usize = 0;
        while i < n
            invariant
                n == self.workspaces@.len() == start.len(),
                i <= n,
                self.theme@ == theme_named(old(self).theme_name.deep_view()),
                self.theme_name == old(self).theme_name,
                self.font_size_bits == old(self).font_size_bits,
                self.active_workspace == old(self).active_workspace,
                old(self).workspaces@.len() > 0 ==> start == old(self).workspaces@,
                old(self).workspaces@.len() == 0 ==> n == 1 && start[0].name@ == default_workspace_name()
                    && start[0].terminals@.len() == 1 && is_single_tab(
                    start[0].terminals@[0],
                    default_workspace_name(),
                ) && start[0].terminals@[0].panes@[0]@.cwd is None
                    && start[0].terminals@[0].panes@[0]@.session_name is None
                    && start[0].active_term == 0,
                forall|k: int| 0 <= k < start.len() ==> {
                    let t = #[trigger] start[k];
                    &&& forall|j: int|
                        0 <= j < t.terminals@.len() ==> leaves_of((#[trigger] t.terminals@[j]).root).len()
                            <= usize::MAX && t.terminals@[j].panes@.len() < usize::MAX
                },
                forall|k: int| 0 <= k < i ==> workspace_repaired(#[trigger] self.workspaces@[k], start[k]),
                forall|k: int| i <= k < n ==> #[trigger] self.workspaces@[k] == start[k],
            decreases n - i,
        {
            let mut ws = self.workspaces.remove(i);
            let ghost ws0 = ws;
            self.repair_workspace(&mut ws);
            self.workspaces.insert(i, ws);
            proof {
                assert forall|k: int| 0 <= k < i + 1 implies workspace_repaired(
                    #[trigger] self.workspaces@[k],
                    start[k],
                ) by {
                    if k == i {
                        assert(ws0 == start[k]);
                    }
                }
                assert forall|k: int| i + 1 <= k < n implies #[trigger] self.workspaces@[k]
                    == start[k] by {}
            }
            i = i + 1;
        }
        if self.active_workspace >= n {
            self.active_workspace = n - 1;
        }
        proof {
            if old(self).workspaces@.len() == 0 {
                let w = self.workspaces@[0];
                let st = start[0].terminals@[0];
                assert(workspace_repaired(w, start[0]));
                assert(tab_repaired(w.terminals@[0], st));
                assert(pane_views(st.panes@) =~= seq![
                    PaneView { name: default_workspace_name(), cwd: None, session_name: None },
                ]);
                assert(pane_views(w.terminals@[0].panes@).len() == w.terminals@[0].panes@.len());
            }
            assert forall|k: int| 0 <= k < n implies workspace_well_formed(
                #[trigger] self.workspaces@[k],
            ) by {
                let w = self.workspaces@[k];
                assert(workspace_repaired(w, start[k]));
                if start[k].terminals@.len() > 0 {
                    assert forall|j: int| 0 <= j < w.terminals@.len() implies tab_well_formed(
                        &#[trigger] w.terminals@[j],
                    ) by {
                        assert(tab_repaired(w.terminals@[j], start[k].terminals@[j]));
                    }
                }
            }
        }
    }

    /// Repairs one workspace as `repair` does.
    fn repair_workspace(&self, ws: &mut WorkspaceData)
        requires
            forall|j: int|
                0 <= j < old(ws).terminals@.len() ==> leaves_of((#[trigger] old(ws).terminals@[j]).root).len()
                    <= usize::MAX && old(ws).terminals@[j].panes@.len() < usize::MAX,
        ensures
            workspace_repaired(*final(ws), *old(ws)),
    {
        if ws.terminals.len() == 0 {
            let pane = TerminalData { name: ws.name.clone(), cwd: None, session_name: None };
            let tab = TabData::single(pane);
            assert(pane_views(tab.panes@).len() == 1);
            assert(leaves_of(tab.root).len() == 1);
            ws.terminals.push(tab);
        }
        let ghost start = ws.terminals@;
        let n = ws.terminals.len();
        let mut j: usize = 0;
        while j < n
            invariant
                n == ws.terminals@.len() == start.len(),
                j <= n,
                ws.name == old(ws).name,
                ws.active_term == old(ws).active_term,
                old(ws).terminals@.len() > 0 ==> start == old(ws).terminals@,
                old(ws).terminals@.len() == 0 ==> n == 1 && start[0].name@ == old(ws).name@
                    && pane_views(start[0].panes@) == seq![
                    PaneView { name: old(ws).name@, cwd: None, session_name: None },
                ] && start[0].root == SplitNode::Leaf(0) && start[0].active_pane == 0,
                forall|k: int|
                    0 <= k < start.len() ==> leaves_of((#[trigger] start[k]).root).len() <= usize::MAX
                        && start[k].panes@.len() < usize::MAX,
                forall|k: int| 0 <= k < j ==> tab_repaired(#[trigger] ws.terminals@[k], start[k]),
                forall|k: int| j <= k < n ==> #[trigger] ws.terminals@[k] == start[k],
            decreases n - j,
        {
            let mut tab = ws.terminals.remove(j);
            let ghost t0 = tab;
            tab.normalize();
            ws.terminals.insert(j, tab);
            proof {
                assert forall|k: int| 0 <= k < j + 1 implies tab_repaired(
                    #[trigger] ws.terminals@[k],
                    start[k],
                ) by {
                    if k == j {
                        assert(t0 == start[k]);
                    }
                }
                assert forall|k: int| j + 1 <= k < n implies #[trigger] ws.terminals@[k] == start[k] by {}
            }
            j = j + 1;
        }
        if ws.active_term >= n {
            ws.active_term = n - 1;
        }
        proof {
            if old(ws).terminals@.len() == 0 {
                let t = ws.terminals@[0];
                assert(tab_repaired(t, start[0]));
                assert(pane_views(t.panes@).len() == t.panes@.len());
            }
        }
    }
}

} // verus!
