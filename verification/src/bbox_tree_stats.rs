//! Figures that describe the shape of a tree.

use vstd::prelude::*;
use vstd::pervasive::unreached;
use crate::bbox::BoundingBoxTree;

verus! {

/// The number of vertices on the longest way from the root to a leaf.
pub fn max_depth(tree: &BoundingBoxTree) -> (depth: usize)
    requires
        tree.populated(),
        tree.height() <= usize::MAX,
    ensures
        depth == tree.height(),
{
    max_depth_rec(tree, 0)
}

/// The depth of the deepest leaf below `tree`, where `tree` itself hangs
/// `depth` vertices below the root.
pub fn max_depth_rec(tree: &BoundingBoxTree, depth: usize) -> (deepest: usize)
    requires
        tree.populated(),
        depth + tree.height() <= usize::MAX,
    ensures
        deepest == depth + tree.height(),
    decreases *tree,
{
    match tree {
        BoundingBoxTree::Node(node) => {
            match &node.left {
                Some(tree_l) => {
                    match &node.right {
                        Some(tree_r) => {
                            let l: usize = max_depth_rec(tree_l, depth + 1);
                            let r: usize = max_depth_rec(tree_r, depth + 1);
                            if l >= r {
                                l
                            } else {
                                r
                            }
                        },
                        None => max_depth_rec(tree_l, depth + 1),
                    }
                },
                None => unreached(),
            }
        },
        BoundingBoxTree::Leaf(_) => depth + 1,
    }
}

/// The number of objects in the tree.
pub fn count(tree: &BoundingBoxTree) -> (n: usize)
    requires
        tree.populated(),
        tree.size() <= usize::MAX,
    ensures
        n == tree.size(),
    decreases *tree,
{
    match tree {
        BoundingBoxTree::Node(node) => {
            match &node.left {
                Some(tree_l) => {
                    match &node.right {
                        Some(tree_r) => count(tree_l) + count(tree_r),
                        None => count(tree_l),
                    }
                },
                None => unreached(),
            }
        },
        BoundingBoxTree::Leaf(_) => 1,
    }
}

} // verus!
