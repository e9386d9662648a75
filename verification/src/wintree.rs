//! Walking a frame's window tree.
//!
//! A frame's windows form a tree: internal nodes hold child windows,
//! leaves show buffers. The walker counts the leaf windows, cutting
//! the walk off below a fixed depth so that a malformed (cyclic) tree
//! read out of the host cannot run away; a frame that owns its
//! minibuffer window counts one leaf more.

use vstd::prelude::*;

verus! {

/// Deepest window nesting the walker follows.
pub const MAX_TREE_DEPTH: u32 = 64;

/// Most leaves the walker counts.
pub const MAX_LEAF_COUNT: u64 = 1_000_000;

/// A window node: a leaf showing a buffer, or an internal node holding
/// child windows.
#[derive(Debug)]
pub enum WindowTree {
    /// A leaf window, showing the buffer with this id.
    Leaf(u64),
    /// An internal node with its children in order.
    Internal(Vec<WindowTree>),
}

/// A frame's window structure as plain values.
#[derive(Debug)]
pub struct FrameModel {
    /// The root window, if the frame has one.
    pub root: Option<WindowTree>,
    /// The frame owns its minibuffer window.
    pub owns_minibuffer: bool,
}

/// Saturating add under the leaf-count cap.
pub open spec fn spec_cap_add(a: nat, b: nat) -> nat {
    if a + b > MAX_LEAF_COUNT {
        MAX_LEAF_COUNT as nat
    } else {
        a + b
    }
}

/// Number of leaves of a window tree, walked at most `depth` levels
/// deep and capped at the leaf-count limit.
pub open spec fn spec_leaf_count(t: WindowTree, depth: nat) -> nat
    decreases depth, 0nat, 0nat,
{
    match t {
        WindowTree::Leaf(_) => 1nat,
        WindowTree::Internal(children) => {
            if depth == 0 {
                0nat
            } else {
                spec_leaf_count_from(children@, 0, (depth - 1) as nat)
            }
        },
    }
}

/// Number of leaves of the children from index `i` on.
pub open spec fn spec_leaf_count_from(children: Seq<WindowTree>, i: int, depth: nat) -> nat
    decreases depth, 1nat, children.len() - i,
{
    if i < 0 || i >= children.len() {
        0nat
    } else {
        spec_cap_add(
            spec_leaf_count(children[i], depth),
            spec_leaf_count_from(children, i + 1, depth),
        )
    }
}

/// Count the leaves of a window tree, following at most `depth` levels.
pub fn count_leaves(t: &WindowTree, depth: u32) -> (r: u64)
    ensures
        r == spec_leaf_count(*t, depth as nat),
        r <= MAX_LEAF_COUNT,
    decreases depth, 0nat, 0nat,
{
    match t {
        WindowTree::Leaf(_) => 1,
        WindowTree::Internal(children) => {
            if depth == 0 {
                0
            } else {
                count_leaves_from(children, 0, depth - 1)
            }
        },
    }
}

/// Count the leaves of the children from index `i` on.
fn count_leaves_from(children: &Vec<WindowTree>, i: usize, depth: u32) -> (r: u64)
    ensures
        r == spec_leaf_count_from(children@, i as int, depth as nat),
        r <= MAX_LEAF_COUNT,
    decreases depth, 1nat, children@.len() - i,
{
    if i >= children.len() {
        return 0;
    }
    let head = count_leaves(&children[i], depth);
    let rest = count_leaves_from(children, i + 1, depth);
    if head + rest > MAX_LEAF_COUNT {
        MAX_LEAF_COUNT
    } else {
        head + rest
    }
}

/// Count the leaf windows of a frame: the leaves of its root tree,
/// plus one when the frame owns its minibuffer window.
pub fn frame_window_count(frame: &FrameModel) -> (r: u64)
    ensures
        r == spec_cap_add(
            match frame.root {
                Some(t) => spec_leaf_count(t, MAX_TREE_DEPTH as nat),
                None => 0nat,
            },
            if frame.owns_minibuffer {
                1nat
            } else {
                0nat
            },
        ),
{
    let base = match &frame.root {
        Some(t) => count_leaves(t, MAX_TREE_DEPTH),
        None => 0,
    };
    let extra: u64 = if frame.owns_minibuffer {
        1
    } else {
        0
    };
    if base + extra > MAX_LEAF_COUNT {
        MAX_LEAF_COUNT
    } else {
        base + extra
    }
}

} // verus!
