//! Persisted application state: workspaces, their tabs, and each tab's
//! panes laid out by a split tree.

use vstd::prelude::*;
use crate::split_tree::{
    build_balanced, build_balanced_spec, lemma_balanced_leaves, law_balanced_splits_alternate, splits_alternate, leaves, leaves_of, remove_leaf, remove_leaf_spec,
    renumber_index, renumber_spec, renumber_tree, replace_leaf, replace_leaf_spec, SplitDir, SplitNode,
    HALF_RATIO_BITS,
};
use crate::text::{decimal_digits, numbered_name};

verus! {

/// One terminal pane: its title, working directory and, on macOS, the
/// screen session it reattaches to.
pub struct TerminalData {
    pub name: String,
    pub cwd: Option<String>,
    pub session_name: Option<String>,
}

/// What a pane holds, as sequences of characters.
pub struct PaneView {
    pub name: Seq<char>,
    pub cwd: Option<Seq<char>>,
    pub session_name: Option<Seq<char>>,
}

impl View for TerminalData {
    type V = PaneView;

    open spec fn view(&self) -> PaneView {
        PaneView {
            name: self.name@,
            cwd: self.cwd.deep_view(),
            session_name: self.session_name.deep_view(),
        }
    }
}

/// The views of a list of panes.
pub open spec fn pane_views(ps: Seq<TerminalData>) -> Seq<PaneView> {
    ps.map_values(|p: TerminalData| p@)
}

/// A copy of an optional string.
pub fn clone_opt_string(s: &Option<String>) -> (r: Option<String>)
    ensures
        r.deep_view() == s.deep_view(),
{
    match s {
        Some(v) => Some(v.clone()),
        None => None,
    }
}

impl TerminalData {
    /// A copy of this pane.
    pub fn duplicate(&self) -> (r: TerminalData)
        ensures
            r@ == self@,
    {
        TerminalData {
            name: self.name.clone(),
            cwd: clone_opt_string(&self.cwd),
            session_name: clone_opt_string(&self.session_name),
        }
    }
}

/// One tab: a set of panes plus the split tree that lays them out.
pub struct TabData {
    pub name: String,
    pub panes: Vec<TerminalData>,
    pub active_pane: usize,
    pub root: SplitNode,
}

// ---------------------------------------------------------------------
// The model of normalisation
// ---------------------------------------------------------------------

/// Leaves that point at one of `n` panes, first occurrences only, in order.
pub open spec fn kept_leaves(ls: Seq<usize>, n: nat) -> Seq<usize>
    decreases ls.len(),
{
    if ls.len() == 0 {
        Seq::empty()
    } else {
        let k = kept_leaves(ls.drop_last(), n);
        if ls.last() < n && !k.contains(ls.last()) {
            k.push(ls.last())
        } else {
            k
        }
    }
}

/// The indices below `upto` that `used` does not hold, ascending.
pub open spec fn unused_indices(used: Seq<usize>, upto: nat) -> Seq<usize>
    decreases upto,
{
    if upto == 0 {
        Seq::empty()
    } else {
        let r = unused_indices(used, (upto - 1) as nat);
        if used.contains((upto - 1) as usize) {
            r
        } else {
            r.push((upto - 1) as usize)
        }
    }
}

/// The pane order a normalised tree has: the live leaves first, in their
/// order and without repeats, then every pane no leaf pointed at.
pub open spec fn normalized_order(ls: Seq<usize>, n: nat) -> Seq<usize> {
    kept_leaves(ls, n) + unused_indices(kept_leaves(ls, n), n)
}

/// The tree `normalize` rebuilds from `root` for `n` panes.
pub open spec fn normalized_root(root: SplitNode, n: nat) -> SplitNode {
    build_balanced_spec(normalized_order(leaves_of(root), n), 0)
}

/// The panes of a normalised tab: its panes, or one fallback pane when it
/// had none.
pub open spec fn normalized_panes(tab_name: Seq<char>, panes: Seq<PaneView>) -> Seq<PaneView> {
    if panes.len() == 0 {
        seq![PaneView { name: fallback_pane_name(tab_name), cwd: None, session_name: None }]
    } else {
        panes
    }
}

/// The active pane of a normalised tab of `n` panes: `active`, clamped to
/// the last pane.
pub open spec fn normalized_active(active: int, n: nat) -> int {
    if active < n { active } else { n - 1 }
}

/// `ls` holds each of `0..n` exactly once.
pub open spec fn is_pane_permutation(ls: Seq<usize>, n: nat) -> bool {
    &&& ls.no_duplicates()
    &&& forall|k: int| 0 <= k < ls.len() ==> (#[trigger] ls[k]) < n
    &&& forall|i: usize| i < n ==> #[trigger] ls.contains(i)
}

/// The name the lone pane of a tab with no panes gets.
pub open spec fn fallback_pane_name(tab_name: Seq<char>) -> Seq<char> {
    if tab_name.len() == 0 {
        "Terminal"@
    } else {
        tab_name
    }
}

/// A tab is well formed when it has a pane, every pane is a leaf exactly
/// once, and the active pane is one of them.
pub open spec fn tab_well_formed(tab: &TabData) -> bool {
    &&& tab.panes@.len() >= 1
    &&& is_pane_permutation(leaves_of(tab.root), tab.panes@.len())
    &&& tab.active_pane < tab.panes@.len()
}

/// The pane a split appends: named after the split pane and numbered by
/// the new pane count, in the same working directory, with no session.
pub open spec fn split_pane_view(base: PaneView, n: nat) -> PaneView {
    PaneView {
        name: base.name + seq![' '] + decimal_digits(n + 1),
        cwd: base.cwd,
        session_name: None,
    }
}

/// The node that replaces the leaf of pane `p` when it is split off into
/// pane `new_idx`.
pub open spec fn split_of(dir: SplitDir, p: usize, new_idx: usize) -> SplitNode {
    SplitNode::Split {
        dir,
        ratio_bits: HALF_RATIO_BITS,
        first: Box::new(SplitNode::Leaf(p)),
        second: Box::new(SplitNode::Leaf(new_idx)),
    }
}

/// The tree left once pane `p` is closed, before normalisation.
pub open spec fn closed_tree(root: SplitNode, p: usize) -> SplitNode {
    match remove_leaf_spec(root, p) {
        Some(rest) => renumber_spec(rest, p),
        None => SplitNode::Leaf(0),
    }
}

impl TabData {
    /// A tab holding one pane, named after it.
    pub fn single(pane: TerminalData) -> (tab: TabData)
        ensures
            tab.name@ == pane.name@,
            pane_views(tab.panes@) == seq![pane@],
            tab.active_pane == 0,
            tab.root == SplitNode::Leaf(0),
    {
        let name = pane.name.clone();
        let ghost pv = pane@;
        let panes = vec![pane];
        assert(pane_views(panes@) =~= seq![pv]);
        TabData { name, panes, active_pane: 0, root: SplitNode::Leaf(0) }
    }

    /// The tab's title: its own name, else its first pane's, else
    /// `Terminal`.
    pub fn display_name(&self) -> (r: &str)
        ensures
            r@ == if self.name@.len() > 0 {
                self.name@
            } else if self.panes@.len() > 0 {
                self.panes@[0].name@
            } else {
                "Terminal"@
            },
    {
        if self.name.as_str().is_empty() {
            if self.panes.len() > 0 {
                self.panes[0].name.as_str()
            } else {
                "Terminal"
            }
        } else {
            self.name.as_str()
        }
    }

    /// Clamps indices, drops dangling leaves, rebuilds a sane tree: a tab
    /// with no pane gets one, the tree is rebuilt balanced over the live
    /// leaves (first occurrences, in order) followed by the panes no leaf
    /// held, and the active pane is clamped to the pane list.
    pub fn normalize(&mut self)
        requires
            leaves_of(old(self).root).len() <= usize::MAX,
            old(self).panes@.len() < usize::MAX,
        ensures
            final(self).name == old(self).name,
            pane_views(final(self).panes@) == normalized_panes(old(self).name@, pane_views(old(self).panes@)),
            final(self).root == normalized_root(old(self).root, final(self).panes@.len()),
            final(self).active_pane == normalized_active(old(self).active_pane as int, final(self).panes@.len()),
            tab_well_formed(final(self)),
    {
        if self.panes.len() == 0 {
            let name = if self.name.as_str().is_empty() {
                proof {
                    reveal_strlit("Terminal");
                }
                "Terminal".to_owned()
            } else {
                self.name.clone()
            };
            let ghost nv = name@;
            self.panes.push(TerminalData { name, cwd: None, session_name: None });
            assert(pane_views(self.panes@) =~= seq![
                PaneView { name: nv, cwd: None, session_name: None },
            ]);
        }
        let n = self.panes.len();
        let ls = leaves(&self.root);
        let order = normalize_order(&ls, n);
        proof {
            lemma_normalized_order_permutation(ls@, n as nat);
            lemma_balanced_leaves(order@, 0);
        }
        assert(order@.len() == order.len());
        self.root = build_balanced(&order, 0);
        let mut active = self.active_pane;
        if active > n - 1 {
            active = n - 1;
        }
        let tree_leaves = leaves(&self.root);
        assert(tree_leaves@ == order@);
        assert(tree_leaves@.contains(active));
        if !vec_contains(&tree_leaves, active) {
            active = tree_leaves[0];
        }
        self.active_pane = active;
    }

    /// Splits pane `pane_idx` (clamped to the pane list) in direction
    /// `dir`: a new pane named after it, with its working directory, is
    /// appended and becomes active, and the leaf of the split pane becomes
    /// a half-and-half split of the old pane and the new one. Returns the
    /// new pane's index.
    pub fn split_pane(&mut self, pane_idx: usize, dir: SplitDir) -> (new_idx: usize)
        requires
            old(self).panes@.len() >= 1,
            old(self).panes@.len() + 1 < usize::MAX,
        ensures
            ({
                let n = old(self).panes@.len();
                let p = if pane_idx < n {
                    pane_idx as int
                } else {
                    n - 1
                };
                &&& new_idx == n
                &&& final(self).name == old(self).name
                &&& pane_views(final(self).panes@) == pane_views(old(self).panes@).push(
                    split_pane_view(old(self).panes@[p]@, n as nat),
                )
                &&& final(self).root == replace_leaf_spec(
                    old(self).root,
                    p as usize,
                    split_of(dir, p as usize, n as usize),
                )
                &&& final(self).active_pane == n
            }),
    {
        let n = self.panes.len();
        let pane_idx = if pane_idx < n {
            pane_idx
        } else {
            n - 1
        };
        let base = self.panes[pane_idx].duplicate();
        let new_idx = n;
        let name = numbered_name(base.name.as_str(), new_idx + 1);
        let ghost old_views = pane_views(self.panes@);
        let pane = TerminalData { name, cwd: clone_opt_string(&base.cwd), session_name: None };
        let ghost pv = pane@;
        self.panes.push(pane);
        assert(pane_views(self.panes@) =~= old_views.push(pv));
        let mut root = SplitNode::Leaf(0);
        std::mem::swap(&mut root, &mut self.root);
        self.root = replace_leaf(
            root,
            pane_idx,
            SplitNode::Split {
                dir,
                ratio_bits: HALF_RATIO_BITS,
                first: Box::new(SplitNode::Leaf(pane_idx)),
                second: Box::new(SplitNode::Leaf(new_idx)),
            },
        );
        self.active_pane = new_idx;
        new_idx
    }

    /// Closes pane `pane_idx` (clamped to the pane list) and rebuilds the
    /// tree without it. Returns false, changing nothing, when it was the
    /// last pane.
    pub fn close_pane(&mut self, pane_idx: usize) -> (closed: bool)
        requires
            leaves_of(old(self).root).len() <= usize::MAX,
        ensures
            closed == (old(self).panes@.len() > 1),
            !closed ==> *final(self) == *old(self),
            closed ==> ({
                let n = old(self).panes@.len();
                let p = if pane_idx < n {
                    pane_idx as int
                } else {
                    n - 1
                };
                &&& final(self).name == old(self).name
                &&& pane_views(final(self).panes@) == pane_views(old(self).panes@).remove(p)
                &&& final(self).root == normalized_root(
                    closed_tree(old(self).root, p as usize),
                    (n - 1) as nat,
                )
                &&& final(self).active_pane == if old(self).active_pane < n - 1 {
                    old(self).active_pane as int
                } else {
                    n - 2
                }
                &&& tab_well_formed(final(self))
            }),
    {
        if self.panes.len() <= 1 {
            return false;
        }
        let n = self.panes.len();
        let pane_idx = if pane_idx < n - 1 {
            pane_idx
        } else {
            n - 1
        };
        let ghost old_views = pane_views(self.panes@);
        self.panes.remove(pane_idx);
        assert(pane_views(self.panes@) =~= old_views.remove(pane_idx as int));
        let mut root = SplitNode::Leaf(0);
        std::mem::swap(&mut root, &mut self.root);
        proof {
            lemma_closed_tree_leaves(root, pane_idx);
        }
        self.root = match remove_leaf(root, pane_idx) {
            Some(rest) => renumber_tree(rest, pane_idx),
            None => SplitNode::Leaf(0),
        };
        self.normalize();
        if self.active_pane >= self.panes.len() {
            self.active_pane = self.panes.len() - 1;
        }
        true
    }

    /// Leaves in left-to-right, top-to-bottom order.
    pub fn leaves(&self) -> (r: Vec<usize>)
        requires
            leaves_of(self.root).len() <= usize::MAX,
        ensures
            r@ == leaves_of(self.root),
    {
        leaves(&self.root)
    }
}


/// Whether `v` holds `x`.
pub fn vec_contains(v: &Vec<usize>, x: usize) -> (r: bool)
    ensures
        r == v@.contains(x),
{
    let mut k: usize = 0;
    while k < v.len()
        invariant
            k <= v@.len(),
            forall|j: int| 0 <= j < k ==> v@[j] != x,
        decreases v@.len() - k,
    {
        if v[k] == x {
            return true;
        }
        k = k + 1;
    }
    false
}

/// The pane order of a normalised tree over `ls` for `n` panes.
fn normalize_order(ls: &Vec<usize>, n: usize) -> (order: Vec<usize>)
    ensures
        order@ == normalized_order(ls@, n as nat),
{
    let mut seen: Vec<bool> = Vec::new();
    let mut i: usize = 0;
    while i < n
        invariant
            i <= n,
            seen@.len() == i,
            forall|k: int| 0 <= k < i ==> !seen@[k],
        decreases n - i,
    {
        seen.push(false);
        i = i + 1;
    }
    let mut ordered: Vec<usize> = Vec::new();
    let mut j: usize = 0;
    assert(ls@.take(0) =~= Seq::<usize>::empty());
    while j < ls.len()
        invariant
            j <= ls@.len(),
            seen@.len() == n,
            ordered@ == kept_leaves(ls@.take(j as int), n as nat),
            forall|k: int| 0 <= k < n ==> seen@[k] == ordered@.contains(k as usize),
        decreases ls@.len() - j,
    {
        let leaf = ls[j];
        proof {
            assert(ls@.take(j + 1).drop_last() =~= ls@.take(j as int));
            assert(ls@.take(j + 1).last() == leaf);
        }
        if leaf < n && !seen[leaf] {
            proof {
                assert(!ordered@.contains(leaf));
            }
            let ghost prev = ordered@;
            let ghost prev_seen = seen@;
            seen.set(leaf, true);
            ordered.push(leaf);
            proof {
                assert(ordered@.drop_last() =~= prev);
                assert forall|k: int| 0 <= k < n implies seen@[k] == ordered@.contains(
                    k as usize,
                ) by {
                    if k == leaf {
                        assert(ordered@[ordered@.len() - 1] == leaf);
                    } else {
                        assert(seen@[k] == prev_seen[k]);
                        if ordered@.contains(k as usize) {
                            let w = choose|w: int| 0 <= w < ordered@.len() && ordered@[w] == k as usize;
                            assert(w < ordered@.len() - 1);
                            assert(prev[w] == k as usize);
                        }
                        if prev.contains(k as usize) {
                            let w = choose|w: int| 0 <= w < prev.len() && prev[w] == k as usize;
                            assert(ordered@[w] == k as usize);
                        }
                    }
                }
            }
        } else {
            proof {
                if leaf < n {
                    assert(ordered@.contains(leaf));
                }
            }
        }
        j = j + 1;
    }
    assert(ls@.take(ls@.len() as int) =~= ls@);
    let ghost kept = ordered@;
    let mut i: usize = 0;
    assert(kept + unused_indices(kept, 0) =~= kept);
    while i < n
        invariant
            i <= n,
            seen@.len() == n,
            forall|k: int| 0 <= k < n ==> seen@[k] == kept.contains(k as usize),
            ordered@ == kept + unused_indices(kept, i as nat),
        decreases n - i,
    {
        if !seen[i] {
            ordered.push(i);
        }
        assert(ordered@ =~= kept + unused_indices(kept, (i + 1) as nat));
        i = i + 1;
    }
    ordered
}

// ---------------------------------------------------------------------
// Facts about removing and renumbering leaves
// ---------------------------------------------------------------------

/// `ls` without the first occurrence of `t`.
pub open spec fn remove_first(ls: Seq<usize>, t: usize) -> Seq<usize>
    decreases ls.len(),
{
    if ls.len() == 0 {
        ls
    } else if ls[0] == t {
        ls.drop_first()
    } else {
        seq![ls[0]] + remove_first(ls.drop_first(), t)
    }
}

proof fn lemma_remove_first_len(ls: Seq<usize>, t: usize)
    ensures
        remove_first(ls, t).len() <= ls.len(),
    decreases ls.len(),
{
    if ls.len() > 0 && ls[0] != t {
        lemma_remove_first_len(ls.drop_first(), t);
    }
}

proof fn lemma_remove_first_concat(a: Seq<usize>, b: Seq<usize>, t: usize)
    ensures
        remove_first(a + b, t) == if a.contains(t) {
            remove_first(a, t) + b
        } else {
            a + remove_first(b, t)
        },
    decreases a.len(),
{
    if a.len() == 0 {
        assert(a + b =~= b);
        assert(a + remove_first(b, t) =~= remove_first(b, t));
    } else {
        assert((a + b)[0] == a[0]);
        assert((a + b).drop_first() =~= a.drop_first() + b);
        lemma_remove_first_concat(a.drop_first(), b, t);
        if a[0] == t {
            assert(a.contains(t));
        } else {
            assert(a.contains(t) == a.drop_first().contains(t)) by {
                if a.contains(t) {
                    let w = choose|w: int| 0 <= w < a.len() && a[w] == t;
                    assert(a.drop_first()[w - 1] == t);
                }
                if a.drop_first().contains(t) {
                    let w = choose|w: int| 0 <= w < a.drop_first().len() && a.drop_first()[w] == t;
                    assert(a[w + 1] == t);
                }
            }
            if a.contains(t) {
                assert(seq![a[0]] + (remove_first(a.drop_first(), t) + b) =~= (seq![a[0]]
                    + remove_first(a.drop_first(), t)) + b);
            } else {
                assert(seq![a[0]] + (a.drop_first() + remove_first(b, t)) =~= a + remove_first(
                    b,
                    t,
                ));
            }
        }
    }
}

proof fn lemma_remove_first_absent(ls: Seq<usize>, t: usize)
    requires
        !ls.contains(t),
    ensures
        remove_first(ls, t) == ls,
    decreases ls.len(),
{
    if ls.len() > 0 {
        assert(ls[0] != t);
        assert(!ls.drop_first().contains(t)) by {
            if ls.drop_first().contains(t) {
                let w = choose|w: int| 0 <= w < ls.drop_first().len() && ls.drop_first()[w] == t;
                assert(ls[w + 1] == t);
            }
        }
        lemma_remove_first_absent(ls.drop_first(), t);
        assert(seq![ls[0]] + ls.drop_first() =~= ls);
    }
}

/// Removing a leaf removes its first occurrence from the leaf order.
pub proof fn lemma_remove_leaf_leaves(node: SplitNode, t: usize)
    ensures
        remove_leaf_spec(node, t) is None <==> node == SplitNode::Leaf(t),
        remove_leaf_spec(node, t) matches Some(r) ==> leaves_of(r) == remove_first(
            leaves_of(node),
            t,
        ),
    decreases node,
{
    match node {
        SplitNode::Leaf(i) => {
            if i != t {
                assert(remove_first(seq![i], t) =~= seq![i]) by {
                    let e = seq![i].drop_first();
                    assert(e =~= Seq::<usize>::empty());
                    assert(remove_first(e, t) == e);
                    assert(seq![i][0] == i);
                    assert(seq![seq![i][0]] + e =~= seq![i]);
                }
            }
        },
        SplitNode::Split { dir, ratio_bits, first, second } => {
            let a = leaves_of(*first);
            let b = leaves_of(*second);
            lemma_remove_first_concat(a, b, t);
            lemma_remove_leaf_leaves(*first, t);
            lemma_remove_leaf_leaves(*second, t);
            if a.contains(t) {
                if remove_leaf_spec(*first, t) is None {
                    assert(remove_first(seq![t], t) =~= Seq::<usize>::empty());
                    assert(Seq::<usize>::empty() + b =~= b);
                }
            } else if b.contains(t) {
                if remove_leaf_spec(*second, t) is None {
                    assert(remove_first(seq![t], t) =~= Seq::<usize>::empty());
                    assert(a + Seq::<usize>::empty() =~= a);
                }
            } else {
                lemma_remove_first_absent(b, t);
            }
        },
    }
}

/// Renumbering maps the leaf order index by index.
pub proof fn lemma_renumber_leaves(node: SplitNode, removed: usize)
    ensures
        leaves_of(renumber_spec(node, removed)) == leaves_of(node).map_values(
            |i: usize| renumber_index(i, removed),
        ),
    decreases node,
{
    match node {
        SplitNode::Leaf(i) => {
            assert(seq![i].map_values(|i: usize| renumber_index(i, removed)) =~= seq![
                renumber_index(i, removed),
            ]);
        },
        SplitNode::Split { first, second, .. } => {
            lemma_renumber_leaves(*first, removed);
            lemma_renumber_leaves(*second, removed);
            assert((leaves_of(*first) + leaves_of(*second)).map_values(
                |i: usize| renumber_index(i, removed),
            ) =~= leaves_of(*first).map_values(|i: usize| renumber_index(i, removed))
                + leaves_of(*second).map_values(|i: usize| renumber_index(i, removed)));
        },
    }
}

proof fn lemma_closed_tree_leaves(root: SplitNode, p: usize)
    ensures
        leaves_of(closed_tree(root, p)).len() <= leaves_of(root).len(),
{
    lemma_remove_leaf_leaves(root, p);
    match remove_leaf_spec(root, p) {
        Some(rest) => {
            lemma_renumber_leaves(rest, p);
            lemma_remove_first_len(leaves_of(root), p);
        },
        None => {},
    }
}

// ---------------------------------------------------------------------
// Facts about normalisation
// ---------------------------------------------------------------------

proof fn lemma_kept_leaves(ls: Seq<usize>, n: nat)
    ensures
        kept_leaves(ls, n).no_duplicates(),
        forall|x: usize| #[trigger]
            kept_leaves(ls, n).contains(x) <==> (x < n && ls.contains(x)),
    decreases ls.len(),
{
    if ls.len() > 0 {
        let prev = ls.drop_last();
        lemma_kept_leaves(prev, n);
        let k = kept_leaves(prev, n);
        assert forall|x: usize| #[trigger] ls.contains(x) <==> (prev.contains(x) || x == ls.last()) by {
            if ls.contains(x) {
                let w = choose|w: int| 0 <= w < ls.len() && ls[w] == x;
                if w < ls.len() - 1 {
                    assert(prev[w] == x);
                }
            }
            if prev.contains(x) {
                let w = choose|w: int| 0 <= w < prev.len() && prev[w] == x;
                assert(ls[w] == x);
            }
            if x == ls.last() {
                assert(ls[ls.len() - 1] == x);
            }
        }
        if ls.last() < n && !k.contains(ls.last()) {
            let kk = k.push(ls.last());
            assert forall|x: usize| #[trigger] kk.contains(x) <==> (k.contains(x) || x == ls.last()) by {
                if kk.contains(x) {
                    let w = choose|w: int| 0 <= w < kk.len() && kk[w] == x;
                    if w < k.len() {
                        assert(k[w] == x);
                    }
                }
                if k.contains(x) {
                    let w = choose|w: int| 0 <= w < k.len() && k[w] == x;
                    assert(kk[w] == x);
                }
                if x == ls.last() {
                    assert(kk[k.len() as int] == x);
                }
            }
            assert forall|a: int, b: int| 0 <= a < kk.len() && 0 <= b < kk.len() && a != b implies kk[a]
                != kk[b] by {
                if a < k.len() && b < k.len() {
                } else if a < k.len() {
                    assert(k.contains(kk[a]));
                } else if b < k.len() {
                    assert(k.contains(kk[b]));
                }
            }
        }
    }
}

proof fn lemma_unused_indices(used: Seq<usize>, upto: nat)
    requires
        upto <= usize::MAX + 1,
    ensures
        forall|x: usize| #[trigger]
            unused_indices(used, upto).contains(x) <==> (x < upto && !used.contains(x)),
        forall|a: int, b: int|
            0 <= a < b < unused_indices(used, upto).len() ==> unused_indices(used, upto)[a]
                < unused_indices(used, upto)[b],
        forall|k: int|
            0 <= k < unused_indices(used, upto).len() ==> unused_indices(used, upto)[k] < upto,
    decreases upto,
{
    if upto > 0 {
        let r = unused_indices(used, (upto - 1) as nat);
        lemma_unused_indices(used, (upto - 1) as nat);
        let top = (upto - 1) as usize;
        if !used.contains(top) {
            let rr = r.push(top);
            assert forall|x: usize| #[trigger] rr.contains(x) <==> (r.contains(x) || x == top) by {
                if rr.contains(x) {
                    let w = choose|w: int| 0 <= w < rr.len() && rr[w] == x;
                    if w < r.len() {
                        assert(r[w] == x);
                    }
                }
                if r.contains(x) {
                    let w = choose|w: int| 0 <= w < r.len() && r[w] == x;
                    assert(rr[w] == x);
                }
                if x == top {
                    assert(rr[r.len() as int] == x);
                }
            }
        }
    }
}

/// The order of a normalised tree holds each pane exactly once.
pub proof fn lemma_normalized_order_permutation(ls: Seq<usize>, n: nat)
    requires
        n <= usize::MAX,
    ensures
        is_pane_permutation(normalized_order(ls, n), n),
        n > 0 ==> normalized_order(ls, n).len() > 0,
{
    let k = kept_leaves(ls, n);
    let u = unused_indices(k, n);
    let o = k + u;
    lemma_kept_leaves(ls, n);
    lemma_unused_indices(k, n);
    assert forall|a: int| 0 <= a < o.len() implies (#[trigger] o[a]) < n by {
        if a < k.len() {
            assert(k.contains(k[a]));
        } else {
            assert(u[a - k.len()] == o[a]);
        }
    }
    assert forall|a: int, b: int| 0 <= a < o.len() && 0 <= b < o.len() && a != b implies o[a]
        != o[b] by {
        if a < k.len() && b < k.len() {
        } else if a >= k.len() && b >= k.len() {
            if a < b {
                assert(u[a - k.len()] < u[b - k.len()]);
            } else {
                assert(u[b - k.len()] < u[a - k.len()]);
            }
        } else if a < k.len() {
            assert(u.contains(o[b]));
            assert(k.contains(o[a]));
        } else {
            assert(u.contains(o[a]));
            assert(k.contains(o[b]));
        }
    }
    assert forall|i: usize| i < n implies #[trigger] o.contains(i) by {
        if k.contains(i) {
            let w = choose|w: int| 0 <= w < k.len() && k[w] == i;
            assert(o[w] == i);
        } else {
            assert(u.contains(i));
            let w = choose|w: int| 0 <= w < u.len() && u[w] == i;
            assert(o[k.len() + w] == i);
        }
    }
    if n > 0 {
        assert(o.contains(0));
    }
}


// ---------------------------------------------------------------------
// Laws of tabs
// ---------------------------------------------------------------------

/// `ls` with every `t` replaced by the sequence `ws`.
pub open spec fn replace_all(ls: Seq<usize>, t: usize, ws: Seq<usize>) -> Seq<usize>
    decreases ls.len(),
{
    if ls.len() == 0 {
        ls
    } else {
        (if ls[0] == t {
            ws
        } else {
            seq![ls[0]]
        }) + replace_all(ls.drop_first(), t, ws)
    }
}

proof fn lemma_replace_all_concat(a: Seq<usize>, b: Seq<usize>, t: usize, ws: Seq<usize>)
    ensures
        replace_all(a + b, t, ws) == replace_all(a, t, ws) + replace_all(b, t, ws),
    decreases a.len(),
{
    if a.len() == 0 {
        assert(a + b =~= b);
        assert(replace_all(a, t, ws) + replace_all(b, t, ws) =~= replace_all(b, t, ws));
    } else {
        assert((a + b)[0] == a[0]);
        assert((a + b).drop_first() =~= a.drop_first() + b);
        lemma_replace_all_concat(a.drop_first(), b, t, ws);
        let h = if a[0] == t {
            ws
        } else {
            seq![a[0]]
        };
        assert(h + (replace_all(a.drop_first(), t, ws) + replace_all(b, t, ws)) =~= (h
            + replace_all(a.drop_first(), t, ws)) + replace_all(b, t, ws));
    }
}

proof fn lemma_replace_all_absent(a: Seq<usize>, t: usize, ws: Seq<usize>)
    requires
        !a.contains(t),
    ensures
        replace_all(a, t, ws) == a,
    decreases a.len(),
{
    if a.len() > 0 {
        assert(a[0] != t);
        assert(!a.drop_first().contains(t)) by {
            if a.drop_first().contains(t) {
                let w = choose|w: int| 0 <= w < a.drop_first().len() && a.drop_first()[w] == t;
                assert(a[w + 1] == t);
            }
        }
        lemma_replace_all_absent(a.drop_first(), t, ws);
        assert(seq![a[0]] + a.drop_first() =~= a);
    }
}

/// Replacing a leaf by a tree replaces it by the tree's leaves in the leaf
/// order.
pub proof fn lemma_replace_leaf_leaves(node: SplitNode, t: usize, with: SplitNode)
    ensures
        leaves_of(replace_leaf_spec(node, t, with)) == replace_all(
            leaves_of(node),
            t,
            leaves_of(with),
        ),
    decreases node,
{
    match node {
        SplitNode::Leaf(i) => {
            let e = seq![i].drop_first();
            assert(e =~= Seq::<usize>::empty());
            assert(replace_all(e, t, leaves_of(with)) == e);
            assert(seq![i][0] == i);
            if i == t {
                assert(leaves_of(with) + e =~= leaves_of(with));
            } else {
                assert(seq![i] + e =~= seq![i]);
            }
        },
        SplitNode::Split { first, second, .. } => {
            lemma_replace_leaf_leaves(*first, t, with);
            lemma_replace_leaf_leaves(*second, t, with);
            lemma_replace_all_concat(leaves_of(*first), leaves_of(*second), t, leaves_of(with));
        },
    }
}

proof fn lemma_no_dup_not_in_parts(ls: Seq<usize>, k: int)
    requires
        ls.no_duplicates(),
        0 <= k < ls.len(),
    ensures
        !ls.take(k).contains(ls[k]),
        !ls.skip(k + 1).contains(ls[k]),
{
    let tk = ls.take(k);
    if tk.contains(ls[k]) {
        let w = choose|w: int| 0 <= w < tk.len() && tk[w] == ls[k];
        assert(ls[w] == ls[k]);
    }
    let sk = ls.skip(k + 1);
    if sk.contains(ls[k]) {
        let w = choose|w: int| 0 <= w < sk.len() && sk[w] == ls[k];
        assert(ls[k + 1 + w] == ls[k]);
    }
}

/// The leaf order after splitting pane `p` of a well-formed tab into pane
/// `n`: `p` followed by `n` where `p` was.
proof fn lemma_split_leaves(ls: Seq<usize>, n: nat, p: usize) -> (k: int)
    requires
        is_pane_permutation(ls, n),
        p < n,
    ensures
        0 <= k < ls.len(),
        ls[k] == p,
        replace_all(ls, p, seq![p, n as usize]) == ls.take(k) + seq![p, n as usize] + ls.skip(k + 1),
{
    assert(ls.contains(p));
    let k = choose|k: int| 0 <= k < ls.len() && ls[k] == p;
    lemma_no_dup_not_in_parts(ls, k);
    assert(ls =~= ls.take(k) + seq![p] + ls.skip(k + 1));
    lemma_replace_all_concat(ls.take(k) + seq![p], ls.skip(k + 1), p, seq![p, n as usize]);
    lemma_replace_all_concat(ls.take(k), seq![p], p, seq![p, n as usize]);
    lemma_replace_all_absent(ls.take(k), p, seq![p, n as usize]);
    lemma_replace_all_absent(ls.skip(k + 1), p, seq![p, n as usize]);
    let e = seq![p].drop_first();
    assert(e =~= Seq::<usize>::empty());
    assert(replace_all(e, p, seq![p, n as usize]) == e);
    assert(seq![p, n as usize] + e =~= seq![p, n as usize]);
    k
}

/// Splitting a pane of a well-formed tab keeps it well formed: the leaf
/// order gets the new pane right after the split one, so every pane is
/// still a leaf exactly once, and the new, active pane is a leaf.
pub proof fn law_split_keeps_panes_permuted(root: SplitNode, n: nat, p: usize, dir: SplitDir)
    requires
        is_pane_permutation(leaves_of(root), n),
        p < n,
        n < usize::MAX,
    ensures
        is_pane_permutation(
            leaves_of(replace_leaf_spec(root, p, split_of(dir, p, n as usize))),
            n + 1,
        ),
{
    let ls = leaves_of(root);
    let w = split_of(dir, p, n as usize);
    assert(leaves_of(SplitNode::Leaf(p)) == seq![p]);
    assert(leaves_of(SplitNode::Leaf(n as usize)) == seq![n as usize]);
    assert(leaves_of(w) =~= seq![p, n as usize]);
    lemma_replace_leaf_leaves(root, p, w);
    let k = lemma_split_leaves(ls, n, p);
    let r = ls.take(k) + seq![p, n as usize] + ls.skip(k + 1);
    lemma_no_dup_not_in_parts(ls, k);
    assert forall|j: int| 0 <= j < r.len() implies (#[trigger] r[j]) < n + 1 by {
        if j < k {
            assert(r[j] == ls[j]);
        } else if j > k + 1 {
            assert(r[j] == ls[j - 1]);
        }
    }
    assert forall|i: usize| i < n + 1 implies #[trigger] r.contains(i) by {
        if i == n {
            assert(r[k + 1] == i);
        } else {
            assert(ls.contains(i));
            let j = choose|j: int| 0 <= j < ls.len() && ls[j] == i;
            if j < k {
                assert(r[j] == i);
            } else if j == k {
                assert(r[k] == i);
            } else {
                assert(r[j + 1] == i);
            }
        }
    }
    assert forall|a: int, b: int| 0 <= a < r.len() && 0 <= b < r.len() && a != b implies r[a]
        != r[b] by {
        // Position in `ls` of each element of `r`, the new pane aside.
        let pa = if a <= k {
            a
        } else {
            a - 1
        };
        let pb = if b <= k {
            b
        } else {
            b - 1
        };
        if a == k + 1 {
            assert(ls[pb] < n);
        } else if b == k + 1 {
            assert(ls[pa] < n);
        } else {
            assert(r[a] == ls[pa]);
            assert(r[b] == ls[pb]);
        }
    }
}

proof fn lemma_kept_all(ls: Seq<usize>, n: nat)
    requires
        ls.no_duplicates(),
        forall|k: int| 0 <= k < ls.len() ==> (#[trigger] ls[k]) < n,
    ensures
        kept_leaves(ls, n) == ls,
    decreases ls.len(),
{
    if ls.len() > 0 {
        let prev = ls.drop_last();
        assert forall|k: int| 0 <= k < prev.len() implies (#[trigger] prev[k]) < n by {
            assert(prev[k] == ls[k]);
        }
        lemma_kept_all(prev, n);
        assert(!prev.contains(ls.last())) by {
            if prev.contains(ls.last()) {
                let w = choose|w: int| 0 <= w < prev.len() && prev[w] == ls.last();
                assert(ls[w] == ls[ls.len() - 1]);
            }
        }
        assert(prev.push(ls.last()) =~= ls);
    }
}

proof fn lemma_unused_none(used: Seq<usize>, upto: nat)
    requires
        forall|i: usize| i < upto ==> #[trigger] used.contains(i),
    ensures
        unused_indices(used, upto) == Seq::<usize>::empty(),
    decreases upto,
{
    if upto > 0 {
        lemma_unused_none(used, (upto - 1) as nat);
        assert(used.contains((upto - 1) as usize));
    }
}

/// Normalising a well-formed tab keeps its pane order.
pub proof fn law_normalize_keeps_permuted_order(ls: Seq<usize>, n: nat)
    requires
        is_pane_permutation(ls, n),
    ensures
        normalized_order(ls, n) == ls,
{
    lemma_kept_all(ls, n);
    lemma_unused_none(ls, n);
    assert(ls + Seq::<usize>::empty() =~= ls);
}

/// Normalising twice changes nothing more than normalising once: the
/// panes, the rebuilt tree and the clamped active pane are already what a
/// second normalisation would make of them.
pub proof fn law_normalize_is_idempotent(
    tab_name: Seq<char>,
    panes: Seq<PaneView>,
    root: SplitNode,
    active: int,
)
    requires
        panes.len() < usize::MAX,
    ensures
        ({
            let p1 = normalized_panes(tab_name, panes);
            let n = p1.len();
            let r1 = normalized_root(root, n);
            let a1 = normalized_active(active, n);
            &&& normalized_panes(tab_name, p1) == p1
            &&& normalized_root(r1, n) == r1
            &&& normalized_active(a1, n) == a1
        }),
{
    let p1 = normalized_panes(tab_name, panes);
    let n = p1.len();
    let o = normalized_order(leaves_of(root), n);
    lemma_normalized_order_permutation(leaves_of(root), n);
    lemma_balanced_leaves(o, 0);
    law_normalize_keeps_permuted_order(o, n);
}

/// The tree `normalize` and `close_pane` rebuild puts its panes side by
/// side at the top and alternates the split direction below: with two or
/// more panes the top split is `Vertical`.
pub proof fn law_rebuilt_tree_starts_side_by_side(root: SplitNode, n: nat)
    requires
        n <= usize::MAX,
    ensures
        splits_alternate(normalized_root(root, n), 0),
        n >= 2 ==> normalized_root(root, n) matches SplitNode::Split { dir: SplitDir::Vertical, .. },
{
    let o = normalized_order(leaves_of(root), n);
    lemma_normalized_order_permutation(leaves_of(root), n);
    law_balanced_splits_alternate(o, 0);
    if n >= 2 {
        assert(o.contains(0usize) && o.contains(1usize));
        let i0 = choose|i: int| 0 <= i < o.len() && o[i] == 0usize;
        let i1 = choose|i: int| 0 <= i < o.len() && o[i] == 1usize;
        assert(i0 != i1);
        assert(o.len() >= 2);
    }
}

/// Closing the pane that a split just added restores the tab's panes and
/// its pane order.
pub proof fn law_split_then_close_restores(
    root: SplitNode,
    panes: Seq<PaneView>,
    added: PaneView,
    p: usize,
    dir: SplitDir,
)
    requires
        panes.len() >= 1,
        is_pane_permutation(leaves_of(root), panes.len()),
        p < panes.len(),
        panes.len() + 1 < usize::MAX,
    ensures
        ({
            let n = panes.len();
            let split = replace_leaf_spec(root, p, split_of(dir, p, n as usize));
            &&& leaves_of(normalized_root(closed_tree(split, n as usize), n)) == leaves_of(root)
            &&& panes.push(added).remove(n as int) == panes
        }),
{
    let n = panes.len();
    let ls = leaves_of(root);
    let w = split_of(dir, p, n as usize);
    let split = replace_leaf_spec(root, p, w);
    assert(leaves_of(SplitNode::Leaf(p)) == seq![p]);
    assert(leaves_of(SplitNode::Leaf(n as usize)) == seq![n as usize]);
    assert(leaves_of(w) =~= seq![p, n as usize]);
    lemma_replace_leaf_leaves(root, p, w);
    let k = lemma_split_leaves(ls, n, p);
    let sl = leaves_of(split);
    assert(sl == ls.take(k) + seq![p, n as usize] + ls.skip(k + 1));
    // The new pane is the only leaf `n`.
    assert(!ls.take(k).contains(n as usize)) by {
        let tk = ls.take(k);
        if tk.contains(n as usize) {
            let j = choose|j: int| 0 <= j < tk.len() && tk[j] == n as usize;
            assert(ls[j] < n);
        }
    }
    assert(!ls.skip(k + 1).contains(n as usize)) by {
        let sk = ls.skip(k + 1);
        if sk.contains(n as usize) {
            let j = choose|j: int| 0 <= j < sk.len() && sk[j] == n as usize;
            assert(ls[k + 1 + j] < n);
        }
    }
    let pn = seq![p, n as usize];
    assert(!seq![p].contains(n as usize)) by {
        if seq![p].contains(n as usize) {
            assert(seq![p][0] == p);
        }
    }
    assert(pn =~= seq![p] + seq![n as usize]);
    lemma_remove_first_concat(ls.take(k) + pn, ls.skip(k + 1), n as usize);
    lemma_remove_first_concat(ls.take(k), pn, n as usize);
    lemma_remove_first_concat(seq![p], seq![n as usize], n as usize);
    lemma_remove_first_absent(seq![p], n as usize);
    assert(remove_first(seq![n as usize], n as usize) =~= Seq::<usize>::empty());
    assert(!(ls.take(k) + pn).contains(n as usize) == false) by {
        assert((ls.take(k) + pn)[k + 1] == n as usize);
    }
    let removed = remove_first(sl, n as usize);
    assert(removed =~= ls) by {
        assert(ls =~= ls.take(k) + seq![p] + ls.skip(k + 1));
    }
    lemma_remove_leaf_leaves(split, n as usize);
    assert(split != SplitNode::Leaf(n as usize)) by {
        if split == SplitNode::Leaf(n as usize) {
            assert(sl =~= seq![n as usize]);
            assert(sl.len() == ls.len() + 1);
        }
    }
    let rest = remove_leaf_spec(split, n as usize)->Some_0;
    assert(leaves_of(rest) == ls);
    lemma_renumber_leaves(rest, n as usize);
    assert(ls.map_values(|i: usize| renumber_index(i, n as usize)) =~= ls);
    let closed = closed_tree(split, n as usize);
    assert(leaves_of(closed) == ls);
    law_normalize_keeps_permuted_order(ls, n);
    assert(ls.contains(p));
    lemma_balanced_leaves(ls, 0);
    assert(panes.push(added).remove(n as int) =~= panes);
}

} // verus!
