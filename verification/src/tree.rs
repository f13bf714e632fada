//! The mathematical model of the accumulator: a binary tree of fixed height
//! that is filled from the left, whose absent subtrees all carry one
//! placeholder digest.
//!
//! Positions are counted per level: the node at `(level, pos)` covers the
//! leaves `pos * 2^level .. (pos + 1) * 2^level`. Halving a leaf's index
//! `level` times gives the position of its ancestor at that level.

use vstd::prelude::*;
use vstd::arithmetic::power2::pow2;
use vstd::arithmetic::power2::lemma_pow2_unfold;
use crate::digest::node_digest;

verus! {

/// `n` halved `k` times: the position at level `k` above leaf `n`.
pub open spec fn shr(n: nat, k: nat) -> nat
    decreases k,
{
    if k == 0 {
        n
    } else {
        shr(n, (k - 1) as nat) / 2
    }
}

/// Number of nodes at `level` that cover at least one of `len` leaves.
pub open spec fn width(len: nat, level: nat) -> nat
    decreases level,
{
    if level == 0 {
        len
    } else {
        (width(len, (level - 1) as nat) + 1) / 2
    }
}

/// The position beside `pos` under the same parent.
pub open spec fn sibling(pos: nat) -> nat {
    if pos % 2 == 0 {
        pos + 1
    } else {
        (pos - 1) as nat
    }
}

/// Digest of a parent whose children's digests are `left` and `right`, where
/// both exist.
pub open spec fn join(left: Option<Seq<u8>>, right: Option<Seq<u8>>) -> Option<Seq<u8>> {
    match (left, right) {
        (Some(l), Some(r)) => node_digest(l, r),
        _ => None,
    }
}

/// Digest of the node at `(level, pos)` of the tree over `leaves`: `empty`
/// where the node covers no leaf, the leaf itself at level 0, and the node
/// digest of its two children above that. `None` where the hasher refuses a
/// node on the way.
pub open spec fn subtree(leaves: Seq<Seq<u8>>, empty: Seq<u8>, level: nat, pos: nat) -> Option<
    Seq<u8>,
>
    decreases level,
{
    if pos >= width(leaves.len(), level) {
        Some(empty)
    } else if level == 0 {
        Some(leaves[pos as int])
    } else {
        join(
            subtree(leaves, empty, (level - 1) as nat, 2 * pos),
            subtree(leaves, empty, (level - 1) as nat, 2 * pos + 1),
        )
    }
}

/// Root of the tree of `height` over `leaves`: a full recomputation from all
/// leaves in insertion order.
pub open spec fn tree_root(leaves: Seq<Seq<u8>>, empty: Seq<u8>, height: nat) -> Option<Seq<u8>> {
    subtree(leaves, empty, height, 0)
}

/// One step from a node towards the root: the parent of `running` and
/// `sibling`, with `running` on the left where its position is even.
pub open spec fn step(running: Seq<u8>, sibling: Seq<u8>, pos: nat) -> Option<Seq<u8>> {
    if pos % 2 == 0 {
        node_digest(running, sibling)
    } else {
        node_digest(sibling, running)
    }
}

/// The digest reached from `leaf` at `index` after combining it with the
/// first `k` entries of `path`, the `j`-th bit of `index` deciding the side at
/// level `j`.
pub open spec fn climb(leaf: Seq<u8>, index: nat, path: Seq<Seq<u8>>, k: nat) -> Option<Seq<u8>>
    decreases k,
{
    if k == 0 {
        Some(leaf)
    } else {
        match climb(leaf, index, path, (k - 1) as nat) {
            Some(running) => step(running, path[k - 1], shr(index, (k - 1) as nat)),
            None => None,
        }
    }
}

/// The siblings of leaf `index` in the tree over `leaves`, from the leaf's
/// level up to just below the root.
pub open spec fn sibling_path(leaves: Seq<Seq<u8>>, empty: Seq<u8>, index: nat, height: nat) -> Seq<
    Seq<u8>,
> {
    Seq::new(
        height,
        |k: int| subtree(leaves, empty, k as nat, sibling(shr(index, k as nat))).unwrap(),
    )
}

/// A node that covers only committed leaves lies within the level's width.
pub proof fn lemma_shr_le_width(len: nat, k: nat)
    ensures
        shr(len, k) <= width(len, k),
    decreases k,
{
    if k > 0 {
        lemma_shr_le_width(len, (k - 1) as nat);
    }
}

/// The ancestors of a committed leaf lie within each level's width.
pub proof fn lemma_shr_lt_width(i: nat, len: nat, k: nat)
    requires
        i < len,
    ensures
        shr(i, k) < width(len, k),
    decreases k,
{
    if k > 0 {
        lemma_shr_lt_width(i, len, (k - 1) as nat);
    }
}

/// With `n + 1` leaves, the last node of each level is the ancestor of leaf `n`.
pub proof fn lemma_width_succ(n: nat, k: nat)
    ensures
        width(n + 1, k) == shr(n, k) + 1,
    decreases k,
{
    if k > 0 {
        lemma_width_succ(n, (k - 1) as nat);
    }
}

/// An index below `2^height` has no ancestor but the root at level `height`.
pub proof fn lemma_shr_below_pow2(n: nat, m: nat, k: nat)
    requires
        n < m * pow2(k),
    ensures
        shr(n, k) < m,
    decreases k,
{
    if k == 0 {
        assert(pow2(0) == 1) by {
            vstd::arithmetic::power2::lemma2_to64();
        }
    } else {
        lemma_pow2_unfold(k);
        assert(m * pow2(k) == (2 * m) * pow2((k - 1) as nat)) by (nonlinear_arith)
            requires
                pow2(k) == 2 * pow2((k - 1) as nat),
        ;
        lemma_shr_below_pow2(n, 2 * m, (k - 1) as nat);
    }
}

/// Halving is monotone.
pub proof fn lemma_shr_monotone(a: nat, b: nat, k: nat)
    requires
        a <= b,
    ensures
        shr(a, k) <= shr(b, k),
    decreases k,
{
    if k > 0 {
        lemma_shr_monotone(a, b, (k - 1) as nat);
    }
}

/// A subtree that was complete before a leaf was appended keeps its digest.
pub proof fn lemma_push_keeps_complete(
    leaves: Seq<Seq<u8>>,
    leaf: Seq<u8>,
    empty: Seq<u8>,
    level: nat,
    pos: nat,
)
    requires
        pos < shr(leaves.len(), level),
    ensures
        subtree(leaves.push(leaf), empty, level, pos) == subtree(leaves, empty, level, pos),
    decreases level,
{
    let after = leaves.push(leaf);
    lemma_shr_le_width(leaves.len(), level);
    lemma_shr_le_width(after.len(), level);
    lemma_shr_monotone(leaves.len(), after.len(), level);
    if level > 0 {
        lemma_push_keeps_complete(leaves, leaf, empty, (level - 1) as nat, 2 * pos);
        lemma_push_keeps_complete(leaves, leaf, empty, (level - 1) as nat, 2 * pos + 1);
    }
}

} // verus!
