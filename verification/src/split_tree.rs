//! The binary split tree that lays out a tab's panes.
//!
//! Leaves hold indices into the tab's pane list; internal nodes split the
//! available rectangle in a direction, by a ratio. The ratio is an `f32`
//! in the application; here it is held as its IEEE-754 bit pattern.

use vstd::prelude::*;

verus! {

/// Split direction for a pane container.
/// - `Vertical` lays panes out left-to-right (a vertical divider).
/// - `Horizontal` stacks panes top-to-bottom (a horizontal divider).
#[derive(Clone, Copy, PartialEq, Eq, Debug, Structural)]
pub enum SplitDir {
    Vertical,
    Horizontal,
}

/// Bits of the `f32` value 0.5, the ratio of every new split.
pub const HALF_RATIO_BITS: u32 = 0x3f00_0000;

/// Bits of the `f32` value 0.15, the smallest ratio a split keeps.
pub const MIN_RATIO_BITS: u32 = 0x3e19_999a;

/// Bits of the `f32` value 0.85, the largest ratio a split keeps.
pub const MAX_RATIO_BITS: u32 = 0x3f59_999a;

/// Binary split tree over a tab's panes. Leaves hold pane indices;
/// internal nodes split the available rectangle by `ratio_bits`, the bit
/// pattern of an `f32` ratio.
#[derive(PartialEq, Eq, Debug)]
pub enum SplitNode {
    Leaf(usize),
    Split { dir: SplitDir, ratio_bits: u32, first: Box<SplitNode>, second: Box<SplitNode> },
}

// ---------------------------------------------------------------------
// f32 clamping on bit patterns
// ---------------------------------------------------------------------

/// The `f32` whose bits are `bits` is a NaN.
pub open spec fn f32_bits_is_nan(bits: u32) -> bool {
    bits % 0x8000_0000 > 0x7f80_0000
}

/// `f32::clamp(x, 0.15, 0.85)` on the bit pattern of `x`: a NaN stays as
/// it is, anything below 0.15 (every negative value, -0.0 included)
/// becomes 0.15, anything above 0.85 becomes 0.85. Among non-negative
/// floats the order of the values is the order of their bit patterns.
pub open spec fn clamp_ratio_spec(bits: u32) -> u32 {
    if f32_bits_is_nan(bits) {
        bits
    } else if bits >= 0x8000_0000 || bits < MIN_RATIO_BITS {
        MIN_RATIO_BITS
    } else if bits > MAX_RATIO_BITS {
        MAX_RATIO_BITS
    } else {
        bits
    }
}

/// Clamps the ratio held in `bits` to the range 0.15..=0.85.
pub fn clamp_ratio(bits: u32) -> (r: u32)
    ensures
        r == clamp_ratio_spec(bits),
{
    let magnitude = bits % 0x8000_0000;
    if magnitude > 0x7f80_0000 {
        bits
    } else if bits >= 0x8000_0000 || bits < MIN_RATIO_BITS {
        MIN_RATIO_BITS
    } else if bits > MAX_RATIO_BITS {
        MAX_RATIO_BITS
    } else {
        bits
    }
}

// ---------------------------------------------------------------------
// The model of a tree
// ---------------------------------------------------------------------

/// Leaves in left-to-right, top-to-bottom order.
pub open spec fn leaves_of(node: SplitNode) -> Seq<usize>
    decreases node,
{
    match node {
        SplitNode::Leaf(i) => seq![i],
        SplitNode::Split { first, second, .. } => leaves_of(*first) + leaves_of(*second),
    }
}

/// Number of nodes, a measure for recursion over trees.
pub open spec fn node_count(node: SplitNode) -> nat
    decreases node,
{
    match node {
        SplitNode::Leaf(_) => 1,
        SplitNode::Split { first, second, .. } => 1 + node_count(*first) + node_count(*second),
    }
}

/// The tree with every leaf holding `target` replaced by `with`, and the
/// ratio of every split clamped to 0.15..=0.85.
pub open spec fn replace_leaf_spec(node: SplitNode, target: usize, with: SplitNode) -> SplitNode
    decreases node,
{
    match node {
        SplitNode::Leaf(i) => if i == target {
            with
        } else {
            SplitNode::Leaf(i)
        },
        SplitNode::Split { dir, ratio_bits, first, second } => SplitNode::Split {
            dir,
            ratio_bits: clamp_ratio_spec(ratio_bits),
            first: Box::new(replace_leaf_spec(*first, target, with)),
            second: Box::new(replace_leaf_spec(*second, target, with)),
        },
    }
}

/// The tree with the leftmost leaf holding `target` removed and its
/// sibling promoted; `None` when the tree is that single leaf.
pub open spec fn remove_leaf_spec(node: SplitNode, target: usize) -> Option<SplitNode>
    decreases node,
{
    match node {
        SplitNode::Leaf(i) => if i == target {
            None
        } else {
            Some(SplitNode::Leaf(i))
        },
        SplitNode::Split { dir, ratio_bits, first, second } => {
            if leaves_of(*first).contains(target) {
                match remove_leaf_spec(*first, target) {
                    Some(rest) => Some(
                        SplitNode::Split { dir, ratio_bits, first: Box::new(rest), second },
                    ),
                    None => Some(*second),
                }
            } else if leaves_of(*second).contains(target) {
                match remove_leaf_spec(*second, target) {
                    Some(rest) => Some(
                        SplitNode::Split { dir, ratio_bits, first, second: Box::new(rest) },
                    ),
                    None => Some(*first),
                }
            } else {
                Some(SplitNode::Split { dir, ratio_bits, first, second })
            }
        },
    }
}

/// The index a pane has once pane `removed` is gone.
pub open spec fn renumber_index(i: usize, removed: usize) -> usize {
    if i > removed {
        (i - 1) as usize
    } else {
        i
    }
}

/// The tree with every leaf renumbered for the removal of pane `removed`.
pub open spec fn renumber_spec(node: SplitNode, removed: usize) -> SplitNode
    decreases node,
{
    match node {
        SplitNode::Leaf(i) => SplitNode::Leaf(renumber_index(i, removed)),
        SplitNode::Split { dir, ratio_bits, first, second } => SplitNode::Split {
            dir,
            ratio_bits,
            first: Box::new(renumber_spec(*first, removed)),
            second: Box::new(renumber_spec(*second, removed)),
        },
    }
}

/// A balanced tree over `order`, halving it at each level and alternating
/// vertical (even depth) and horizontal (odd depth) splits, every ratio
/// one half. An empty order gives the single leaf 0.
pub open spec fn build_balanced_spec(order: Seq<usize>, depth: nat) -> SplitNode
    decreases order.len(),
{
    if order.len() == 0 {
        SplitNode::Leaf(0)
    } else if order.len() == 1 {
        SplitNode::Leaf(order[0])
    } else {
        let mid = order.len() / 2;
        SplitNode::Split {
            dir: if depth % 2 == 0 {
                SplitDir::Vertical
            } else {
                SplitDir::Horizontal
            },
            ratio_bits: HALF_RATIO_BITS,
            first: Box::new(build_balanced_spec(order.take(mid as int), depth + 1)),
            second: Box::new(build_balanced_spec(order.skip(mid as int), depth + 1)),
        }
    }
}

// ---------------------------------------------------------------------
// Executable tree operations
// ---------------------------------------------------------------------

/// A copy of `node`.
pub fn clone_node(node: &SplitNode) -> (r: SplitNode)
    ensures
        r == *node,
    decreases node,
{
    match node {
        SplitNode::Leaf(i) => SplitNode::Leaf(*i),
        SplitNode::Split { dir, ratio_bits, first, second } => SplitNode::Split {
            dir: *dir,
            ratio_bits: *ratio_bits,
            first: Box::new(clone_node(first)),
            second: Box::new(clone_node(second)),
        },
    }
}

impl Clone for SplitNode {
    fn clone(&self) -> (r: Self)
        ensures
            r == *self,
    {
        clone_node(self)
    }
}

/// Appends the leaves of `node` to `out`, left to right.
fn collect_leaves(node: &SplitNode, out: &mut Vec<usize>)
    requires
        old(out)@.len() + leaves_of(*node).len() <= usize::MAX,
    ensures
        final(out)@ == old(out)@ + leaves_of(*node),
    decreases node,
{
    match node {
        SplitNode::Leaf(i) => {
            out.push(*i);
            assert(leaves_of(*node) == seq![*i]);
        },
        SplitNode::Split { first, second, .. } => {
            let ghost before = out@;
            collect_leaves(first, out);
            collect_leaves(second, out);
            assert(before + leaves_of(**first) + leaves_of(**second) =~= before + leaves_of(
                *node,
            ));
        },
    }
}

/// The leaves of `node`, left to right.
pub fn leaves(node: &SplitNode) -> (r: Vec<usize>)
    requires
        leaves_of(*node).len() <= usize::MAX,
    ensures
        r@ == leaves_of(*node),
{
    let mut out = Vec::new();
    collect_leaves(node, &mut out);
    assert(Seq::<usize>::empty() + leaves_of(*node) =~= leaves_of(*node));
    out
}

/// Whether some leaf of `node` holds `target`.
pub fn contains_leaf(node: &SplitNode, target: usize) -> (r: bool)
    ensures
        r == leaves_of(*node).contains(target),
    decreases node,
{
    match node {
        SplitNode::Leaf(i) => {
            assert(leaves_of(*node)[0] == *i);
            *i == target
        },
        SplitNode::Split { first, second, .. } => {
            let a = contains_leaf(first, target);
            let b = contains_leaf(second, target);
            proof {
                lemma_contains_concat(leaves_of(**first), leaves_of(**second), target);
            }
            a || b
        },
    }
}

proof fn lemma_contains_concat(a: Seq<usize>, b: Seq<usize>, x: usize)
    ensures
        (a + b).contains(x) == (a.contains(x) || b.contains(x)),
{
    if a.contains(x) {
        let k = choose|k: int| 0 <= k < a.len() && a[k] == x;
        assert((a + b)[k] == x);
    }
    if b.contains(x) {
        let k = choose|k: int| 0 <= k < b.len() && b[k] == x;
        assert((a + b)[a.len() + k] == x);
    }
    if (a + b).contains(x) {
        let k = choose|k: int| 0 <= k < (a + b).len() && (a + b)[k] == x;
        if k < a.len() {
            assert(a[k] == x);
        } else {
            assert(b[k - a.len()] == x);
        }
    }
}

/// Replaces every leaf holding `target` with a copy of `with`, clamping the
/// ratio of every split on the way.
pub fn replace_leaf(node: SplitNode, target: usize, with: SplitNode) -> (r: SplitNode)
    ensures
        r == replace_leaf_spec(node, target, with),
    decreases node,
{
    match node {
        SplitNode::Leaf(i) => {
            if i == target {
                with
            } else {
                SplitNode::Leaf(i)
            }
        },
        SplitNode::Split { dir, ratio_bits, first, second } => {
            let with_copy = clone_node(&with);
            SplitNode::Split {
                dir,
                ratio_bits: clamp_ratio(ratio_bits),
                first: Box::new(replace_leaf(*first, target, with_copy)),
                second: Box::new(replace_leaf(*second, target, with)),
            }
        },
    }
}

/// Removes the leaf holding `target`, promoting its sibling. Returns `None`
/// when the tree was that single leaf.
pub fn remove_leaf(node: SplitNode, target: usize) -> (r: Option<SplitNode>)
    ensures
        r == remove_leaf_spec(node, target),
    decreases node,
{
    match node {
        SplitNode::Leaf(i) => {
            if i == target {
                None
            } else {
                Some(SplitNode::Leaf(i))
            }
        },
        SplitNode::Split { dir, ratio_bits, first, second } => {
            let first_has = contains_leaf(&first, target);
            let second_has = contains_leaf(&second, target);
            if first_has {
                // A leaf held twice is dropped from the left side.
                match remove_leaf(*first, target) {
                    Some(rest) => Some(
                        SplitNode::Split { dir, ratio_bits, first: Box::new(rest), second },
                    ),
                    None => Some(*second),
                }
            } else if second_has {
                match remove_leaf(*second, target) {
                    Some(rest) => Some(
                        SplitNode::Split { dir, ratio_bits, first, second: Box::new(rest) },
                    ),
                    None => Some(*first),
                }
            } else {
                Some(SplitNode::Split { dir, ratio_bits, first, second })
            }
        },
    }
}

/// Renumbers every leaf for the removal of pane `removed`: indices above it
/// move down by one.
pub fn renumber_tree(node: SplitNode, removed: usize) -> (r: SplitNode)
    ensures
        r == renumber_spec(node, removed),
    decreases node,
{
    match node {
        SplitNode::Leaf(i) => SplitNode::Leaf(if i > removed {
            i - 1
        } else {
            i
        }),
        SplitNode::Split { dir, ratio_bits, first, second } => SplitNode::Split {
            dir,
            ratio_bits,
            first: Box::new(renumber_tree(*first, removed)),
            second: Box::new(renumber_tree(*second, removed)),
        },
    }
}

/// A balanced tree over `order[lo..hi]`.
fn build_balanced_range(order: &Vec<usize>, lo: usize, hi: usize, depth: usize) -> (r: SplitNode)
    requires
        lo <= hi <= order@.len(),
        depth + (hi - lo) <= usize::MAX,
    ensures
        r == build_balanced_spec(order@.subrange(lo as int, hi as int), depth as nat),
    decreases hi - lo,
{
    let ghost s = order@.subrange(lo as int, hi as int);
    if hi == lo {
        SplitNode::Leaf(0)
    } else if hi - lo == 1 {
        SplitNode::Leaf(order[lo])
    } else {
        let mid = (hi - lo) / 2;
        let dir = if depth % 2 == 0 {
            SplitDir::Vertical
        } else {
            SplitDir::Horizontal
        };
        let first = build_balanced_range(order, lo, lo + mid, depth + 1);
        let second = build_balanced_range(order, lo + mid, hi, depth + 1);
        assert(s.take(mid as int) =~= order@.subrange(lo as int, lo + mid));
        assert(s.skip(mid as int) =~= order@.subrange(lo + mid, hi as int));
        SplitNode::Split {
            dir,
            ratio_bits: HALF_RATIO_BITS,
            first: Box::new(first),
            second: Box::new(second),
        }
    }
}

/// A balanced tree over `order`, alternating vertical and horizontal
/// splits from `depth` on (vertical at even depth), every ratio one half.
pub fn build_balanced(order: &Vec<usize>, depth: usize) -> (r: SplitNode)
    requires
        depth + order@.len() <= usize::MAX,
    ensures
        r == build_balanced_spec(order@, depth as nat),
{
    assert(order@.subrange(0, order@.len() as int) =~= order@);
    build_balanced_range(order, 0, order.len(), depth)
}

// ---------------------------------------------------------------------
// Facts about the model
// ---------------------------------------------------------------------

/// A balanced tree has the given order as its leaves.
pub proof fn lemma_balanced_leaves(order: Seq<usize>, depth: nat)
    requires
        order.len() > 0,
    ensures
        leaves_of(build_balanced_spec(order, depth)) == order,
    decreases order.len(),
{
    if order.len() == 1 {
        assert(seq![order[0]] =~= order);
    } else {
        let mid = order.len() / 2;
        lemma_balanced_leaves(order.take(mid as int), depth + 1);
        lemma_balanced_leaves(order.skip(mid as int), depth + 1);
        assert(order.take(mid as int) + order.skip(mid as int) =~= order);
    }
}

/// Whether every split of `node`, which sits at depth `depth`, divides
/// side by side (`Vertical`) at an even depth and top to bottom
/// (`Horizontal`) at an odd one.
pub open spec fn splits_alternate(node: SplitNode, depth: nat) -> bool
    decreases node,
{
    match node {
        SplitNode::Leaf(_) => true,
        SplitNode::Split { dir, first, second, .. } => {
            &&& (depth % 2 == 0 ==> dir == SplitDir::Vertical)
            &&& (depth % 2 == 1 ==> dir == SplitDir::Horizontal)
            &&& splits_alternate(*first, depth + 1)
            &&& splits_alternate(*second, depth + 1)
        },
    }
}

/// A tree rebuilt balanced alternates its split directions: side by side
/// at the top (depth 0), then top to bottom, and so on; over two or more
/// panes the top split is side by side.
pub proof fn law_balanced_splits_alternate(order: Seq<usize>, depth: nat)
    ensures
        splits_alternate(build_balanced_spec(order, depth), depth),
        order.len() >= 2 && depth % 2 == 0 ==> build_balanced_spec(order, depth) matches SplitNode::Split {
            dir: SplitDir::Vertical,
            ..
        },
    decreases order.len(),
{
    if order.len() >= 2 {
        let mid = order.len() / 2;
        law_balanced_splits_alternate(order.take(mid as int), depth + 1);
        law_balanced_splits_alternate(order.skip(mid as int), depth + 1);
    }
}

} // verus!
