//! What the accumulator's state means: it stands for the list of all leaves
//! committed so far, its root is the root of the full tree over that list, and
//! every committed leaf has a path that verifies against it.

use vstd::prelude::*;
use vstd::arithmetic::power2::pow2;
use crate::accumulator::append_outcome;
use crate::accumulator::carries;
use crate::accumulator::lemma_climb_none;
use crate::accumulator::new_outcome;
use crate::accumulator::pending_path;
use crate::accumulator::verifies;
use crate::accumulator::AccumulatorView;
use crate::digest::node_preimage;
use crate::digest::node_tag;
use crate::digest::sha256_outcome;
use crate::inclusion::siblings_hash;
use crate::tree::climb;
use crate::tree::lemma_push_keeps_complete;
use crate::tree::lemma_shr_below_pow2;
use crate::tree::lemma_shr_lt_width;
use crate::tree::lemma_width_succ;
use crate::tree::shr;
use crate::tree::sibling;
use crate::tree::sibling_path;
use crate::tree::subtree;
use crate::tree::tree_root;
use crate::tree::width;

verus! {

/// The state `v` is the accumulator of exactly `leaves`, in this order: it
/// counts them, its root is the root of the full tree over them, and each
/// frontier level that waits for a sibling holds the completed subtree to the
/// left of the next leaf's ancestor.
pub open spec fn represents(v: AccumulatorView, leaves: Seq<Seq<u8>>) -> bool {
    &&& v.leaf_count == leaves.len()
    &&& v.frontier.len() == v.height
    &&& v.leaf_count <= pow2(v.height)
    &&& tree_root(leaves, v.empty, v.height) == Some(v.root)
    &&& forall|k: int|
        0 <= k < v.height && shr(v.leaf_count, k as nat) % 2 == 1 ==> subtree(
            leaves,
            v.empty,
            k as nat,
            (shr(v.leaf_count, k as nat) - 1) as nat,
        ) == Some(#[trigger] v.frontier[k])
}

/// No level of a tree without leaves has a node, and index 0 has only
/// ancestors at position 0.
pub proof fn lemma_nothing_at_zero(k: nat)
    ensures
        width(0, k) == 0,
        shr(0, k) == 0,
    decreases k,
{
    if k > 0 {
        lemma_nothing_at_zero((k - 1) as nat);
    }
}

/// The ancestor of the next index is the same node or its right neighbour.
pub proof fn lemma_shr_succ(n: nat, k: nat)
    ensures
        shr(n + 1, k) == shr(n, k) || shr(n + 1, k) == shr(n, k) + 1,
    decreases k,
{
    if k > 0 {
        lemma_shr_succ(n, (k - 1) as nat);
    }
}

/// A fresh accumulator stands for the empty list of leaves.
pub proof fn fresh_accumulator_is_empty(height: nat, v: AccumulatorView)
    requires
        new_outcome(height) == Ok::<AccumulatorView, crate::errors::ErrorCode>(v),
    ensures
        represents(v, Seq::<Seq<u8>>::empty()),
{
    let leaves = Seq::<Seq<u8>>::empty();
    lemma_nothing_at_zero(height);
    assert forall|k: int| 0 <= k < v.height implies #[trigger] shr(v.leaf_count, k as nat) == 0 by {
        lemma_nothing_at_zero(k as nat);
    }
}

/// While the state stands for `leaves`, climbing from a new leaf along the
/// pending path passes through the nodes of the tree over `leaves` and the new
/// leaf.
pub proof fn lemma_climb_pending(
    v: AccumulatorView,
    leaves: Seq<Seq<u8>>,
    leaf: Seq<u8>,
    k: nat,
)
    requires
        represents(v, leaves),
        k <= v.height,
        climb(leaf, v.leaf_count, pending_path(v), k) is Some,
    ensures
        climb(leaf, v.leaf_count, pending_path(v), k) == subtree(
            leaves.push(leaf),
            v.empty,
            k,
            shr(v.leaf_count, k),
        ),
    decreases k,
{
    let n = v.leaf_count;
    let after = leaves.push(leaf);
    lemma_width_succ(n, k);
    if k == 0 {
        assert(after[n as int] == leaf);
    } else {
        let j = (k - 1) as nat;
        lemma_climb_pending(v, leaves, leaf, j);
        lemma_width_succ(n, j);
        let pos = shr(n, j);
        assert(shr(n, k) == pos / 2);
        if pos % 2 == 0 {
            assert(2 * (pos / 2) == pos);
            assert(subtree(after, v.empty, j, pos + 1) == Some(v.empty));
            assert(pending_path(v)[j as int] == v.empty);
        } else {
            assert(2 * (pos / 2) + 1 == pos);
            lemma_push_keeps_complete(leaves, leaf, v.empty, j, (pos - 1) as nat);
            assert(subtree(leaves, v.empty, j, (pos - 1) as nat) == Some(v.frontier[j as int]));
            assert(pending_path(v)[j as int] == v.frontier[j as int]);
        }
    }
}

/// Appending keeps the correspondence: the state after a successful append of
/// `leaf` stands for the old list with `leaf` at its end. So the root is at
/// all times the one that a full recomputation from all committed leaves, in
/// the order of their insertion, gives.
pub proof fn append_extends_ledger(
    v: AccumulatorView,
    leaves: Seq<Seq<u8>>,
    leaf: Seq<u8>,
    w: AccumulatorView,
)
    requires
        represents(v, leaves),
        append_outcome(v, leaf) == Ok::<AccumulatorView, crate::errors::ErrorCode>(w),
    ensures
        represents(w, leaves.push(leaf)),
{
    let n = v.leaf_count;
    let after = leaves.push(leaf);
    let path = pending_path(v);
    lemma_climb_pending(v, leaves, leaf, v.height);
    assert(n < 1 * pow2(v.height));
    lemma_shr_below_pow2(n, 1, v.height);
    assert forall|k: int| 0 <= k < w.height && shr(w.leaf_count, k as nat) % 2 == 1 implies subtree(
        after,
        w.empty,
        k as nat,
        (shr(w.leaf_count, k as nat) - 1) as nat,
    ) == Some(#[trigger] w.frontier[k]) by {
        let pos = shr(n, k as nat);
        lemma_shr_succ(n, k as nat);
        if carries(n, k as nat) {
            if climb(leaf, n, path, k as nat) is None {
                lemma_climb_none(leaf, n, path, k as nat, v.height);
            }
            lemma_climb_pending(v, leaves, leaf, k as nat);
        } else {
            lemma_push_keeps_complete(leaves, leaf, v.empty, k as nat, (pos - 1) as nat);
            assert(subtree(leaves, v.empty, k as nat, (pos - 1) as nat) == Some(v.frontier[k]));
        }
    }
}

/// The path that was pending when a leaf was appended verifies that leaf, at
/// the index the append returned, against the root the append returned.
pub proof fn pending_path_verifies(v: AccumulatorView, leaf: Seq<u8>, w: AccumulatorView)
    requires
        v.frontier.len() == v.height,
        append_outcome(v, leaf) == Ok::<AccumulatorView, crate::errors::ErrorCode>(w),
    ensures
        verifies(leaf, v.leaf_count, pending_path(v), w.root, v.height),
{
}

/// Where the node above a committed leaf at level `top` has a digest, so has
/// each of its ancestors below, and so has the sibling of each.
pub proof fn lemma_ancestors_hash(
    leaves: Seq<Seq<u8>>,
    empty: Seq<u8>,
    index: nat,
    k: nat,
    top: nat,
)
    requires
        index < leaves.len(),
        k <= top,
        subtree(leaves, empty, top, shr(index, top)) is Some,
    ensures
        subtree(leaves, empty, k, shr(index, k)) is Some,
        k < top ==> subtree(leaves, empty, k, sibling(shr(index, k))) is Some,
    decreases top - k,
{
    if k < top {
        lemma_ancestors_hash(leaves, empty, index, k + 1, top);
        lemma_shr_lt_width(index, leaves.len(), k + 1);
        let pos = shr(index, k);
        assert(shr(index, k + 1) == pos / 2);
        if pos % 2 == 0 {
            assert(2 * (pos / 2) == pos);
        } else {
            assert(2 * (pos / 2) + 1 == pos);
        }
    }
}

/// Climbing from a committed leaf along its sibling path passes through the
/// leaf's ancestors.
pub proof fn lemma_climb_siblings(
    leaves: Seq<Seq<u8>>,
    empty: Seq<u8>,
    index: nat,
    k: nat,
    height: nat,
)
    requires
        index < leaves.len(),
        k <= height,
        subtree(leaves, empty, height, shr(index, height)) is Some,
    ensures
        climb(leaves[index as int], index, sibling_path(leaves, empty, index, height), k) == subtree(
            leaves,
            empty,
            k,
            shr(index, k),
        ),
    decreases k,
{
    lemma_shr_lt_width(index, leaves.len(), k);
    if k > 0 {
        let j = (k - 1) as nat;
        lemma_climb_siblings(leaves, empty, index, j, height);
        lemma_ancestors_hash(leaves, empty, index, j, height);
        let pos = shr(index, j);
        let path = sibling_path(leaves, empty, index, height);
        assert(path[j as int] == subtree(leaves, empty, j, sibling(pos)).unwrap());
        assert(shr(index, k) == pos / 2);
        if pos % 2 == 0 {
            assert(2 * (pos / 2) == pos);
        } else {
            assert(2 * (pos / 2) + 1 == pos);
        }
    }
}

/// Every committed leaf is included: each of its siblings in the tree over
/// all committed leaves has a digest, and the path they form verifies the
/// leaf, at its index, against the current root.
pub proof fn committed_leaf_verifies(v: AccumulatorView, leaves: Seq<Seq<u8>>, index: nat)
    requires
        represents(v, leaves),
        index < leaves.len(),
    ensures
        siblings_hash(leaves, v.empty, index, v.height),
        verifies(
            leaves[index as int],
            index,
            sibling_path(leaves, v.empty, index, v.height),
            v.root,
            v.height,
        ),
{
    assert(index < 1 * pow2(v.height));
    lemma_shr_below_pow2(index, 1, v.height);
    lemma_climb_siblings(leaves, v.empty, index, v.height, v.height);
    assert forall|k: int| 0 <= k < v.height implies (#[trigger] subtree(
        leaves,
        v.empty,
        k as nat,
        sibling(shr(index, k as nat)),
    )) is Some by {
        lemma_ancestors_hash(leaves, v.empty, index, k as nat, v.height);
    }
}

/// A path verifies a leaf against one root only: with any byte of the root
/// changed, verification fails.
pub proof fn verified_root_is_unique(
    leaf: Seq<u8>,
    index: nat,
    path: Seq<Seq<u8>>,
    root: Seq<u8>,
    other: Seq<u8>,
    height: nat,
)
    requires
        verifies(leaf, index, path, root, height),
        other != root,
    ensures
        !verifies(leaf, index, path, other, height),
{
}

/// Two different byte strings with the same digest.
pub open spec fn collision(a: Seq<u8>, b: Seq<u8>) -> bool {
    a != b && sha256_outcome(a) is Some && sha256_outcome(a) == sha256_outcome(b)
}

/// A node's preimage determines both children, where the two left children,
/// or the two right children, are known to have the same length.
pub proof fn lemma_node_preimage_injective(
    left: Seq<u8>,
    right: Seq<u8>,
    left2: Seq<u8>,
    right2: Seq<u8>,
)
    requires
        node_preimage(left, right) == node_preimage(left2, right2),
        left.len() == left2.len() || right.len() == right2.len(),
    ensures
        left == left2,
        right == right2,
{
    let a = node_preimage(left, right);
    let b = node_preimage(left2, right2);
    let t = node_tag().len() as int;
    assert(a.len() == t + left.len() + right.len());
    assert(b.len() == t + left2.len() + right2.len());
    assert(left =~= a.subrange(t, t + left.len()));
    assert(left2 =~= b.subrange(t, t + left2.len()));
    assert(right =~= a.subrange(t + left.len(), a.len() as int));
    assert(right2 =~= b.subrange(t + left2.len(), b.len() as int));
}

/// Two paths that lead from one leaf at one index to the same digest after
/// `k` levels, and differ somewhere below level `k`, exhibit a collision.
pub proof fn lemma_paths_collide(
    leaf: Seq<u8>,
    index: nat,
    path: Seq<Seq<u8>>,
    other: Seq<Seq<u8>>,
    k: nat,
)
    requires
        k <= path.len(),
        k <= other.len(),
        climb(leaf, index, path, k) is Some,
        climb(leaf, index, path, k) == climb(leaf, index, other, k),
        forall|j: int| 0 <= j < k ==> (#[trigger] path[j]).len() == 32,
        forall|j: int| 0 <= j < k ==> (#[trigger] other[j]).len() == 32,
        exists|j: int| 0 <= j < k && path[j] != other[j],
    ensures
        exists|a: Seq<u8>, b: Seq<u8>| collision(a, b),
    decreases k,
{
    if k > 0 {
        let j = (k - 1) as nat;
        let x = climb(leaf, index, path, j).unwrap();
        let y = climb(leaf, index, other, j).unwrap();
        let s = path[j as int];
        let t = other[j as int];
        let even = shr(index, j) % 2 == 0;
        let a = if even {
            node_preimage(x, s)
        } else {
            node_preimage(s, x)
        };
        let b = if even {
            node_preimage(y, t)
        } else {
            node_preimage(t, y)
        };
        assert(sha256_outcome(a) == climb(leaf, index, path, k));
        assert(sha256_outcome(b) == climb(leaf, index, other, k));
        if a != b {
            assert(collision(a, b));
        } else {
            if even {
                lemma_node_preimage_injective(x, s, y, t);
            } else {
                lemma_node_preimage_injective(s, x, t, y);
            }
            lemma_paths_collide(leaf, index, path, other, j);
        }
    }
}

/// A leaf at an index has one path to a root, short of a collision: where a
/// path verifies, and another path of 32-byte siblings that differs from it
/// in any byte verifies too, two different byte strings with the same digest
/// have been found.
pub proof fn second_path_exhibits_collision(
    leaf: Seq<u8>,
    index: nat,
    path: Seq<Seq<u8>>,
    other: Seq<Seq<u8>>,
    root: Seq<u8>,
    height: nat,
)
    requires
        verifies(leaf, index, path, root, height),
        verifies(leaf, index, other, root, height),
        path != other,
        forall|j: int| 0 <= j < height ==> (#[trigger] path[j]).len() == 32,
        forall|j: int| 0 <= j < height ==> (#[trigger] other[j]).len() == 32,
    ensures
        exists|a: Seq<u8>, b: Seq<u8>| collision(a, b),
{
    if forall|j: int| 0 <= j < height ==> path[j] == other[j] {
        assert(path =~= other);
    }
    lemma_paths_collide(leaf, index, path, other, height);
}

} // verus!
