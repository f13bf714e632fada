//! Inclusion proofs for any committed leaf, derived by full recomputation
//! from the list of all leaves.

use vstd::prelude::*;
use crate::accumulator::verifies;
use crate::accumulator::verify;
use crate::digest::digest_view;
use crate::digest::digest_views;
use crate::digest::hash_node;
use crate::tree::lemma_shr_lt_width;
use crate::tree::shr;
use crate::tree::sibling;
use crate::tree::sibling_path;
use crate::tree::subtree;
use crate::tree::tree_root;
use crate::tree::width;

verus! {

/// What a verifier needs besides the root: the leaf, its index in insertion
/// order, and its siblings from the leaf's level upwards.
#[derive(Debug, Clone, PartialEq, Eq)]
pub struct InclusionProof {
    pub leaf: [u8; 32],
    pub index: u64,
    pub sibling_path: Vec<[u8; 32]>,
}

/// No level is wider than the list of leaves.
pub proof fn lemma_width_le_len(len: nat, level: nat)
    ensures
        width(len, level) <= len,
    decreases level,
{
    if level > 0 {
        lemma_width_le_len(len, (level - 1) as nat);
    }
}

/// Number of nodes at `level` that cover at least one of `len` leaves.
pub fn level_width(len: usize, level: usize) -> (w: usize)
    ensures
        w == width(len as nat, level as nat),
{
    let mut w: usize = len;
    let mut k: usize = 0;
    while k < level
        invariant
            k <= level,
            w == width(len as nat, k as nat),
        decreases level - k,
    {
        w = w / 2 + w % 2;
        k += 1;
    }
    w
}

/// Digest of the node at `(level, pos)` of the tree over `leaves`, by full
/// recomputation; `None` where the hasher refuses a node.
pub fn subtree_digest(leaves: &Vec<[u8; 32]>, empty: &[u8; 32], level: usize, pos: usize) -> (r:
    Option<[u8; 32]>)
    ensures
        digest_view(r) == subtree(digest_views(leaves@), empty@, level as nat, pos as nat),
    decreases level,
{
    if pos >= level_width(leaves.len(), level) {
        Some(*empty)
    } else if level == 0 {
        Some(leaves[pos])
    } else {
        proof {
            lemma_width_le_len(leaves.len() as nat, (level - 1) as nat);
        }
        let left = subtree_digest(leaves, empty, level - 1, 2 * pos);
        let right = subtree_digest(leaves, empty, level - 1, 2 * pos + 1);
        match (left, right) {
            (Some(l), Some(r)) => hash_node(&l, &r),
            _ => None,
        }
    }
}

/// Root of the tree of `height` over `leaves`, by full recomputation.
pub fn full_root(leaves: &Vec<[u8; 32]>, empty: &[u8; 32], height: usize) -> (r: Option<[u8; 32]>)
    ensures
        digest_view(r) == tree_root(digest_views(leaves@), empty@, height as nat),
{
    subtree_digest(leaves, empty, height, 0)
}

/// Whether every sibling of leaf `index` below `height` has a digest.
pub open spec fn siblings_hash(
    leaves: Seq<Seq<u8>>,
    empty: Seq<u8>,
    index: nat,
    height: nat,
) -> bool {
    forall|k: int|
        0 <= k < height ==> (#[trigger] subtree(
            leaves,
            empty,
            k as nat,
            sibling(shr(index, k as nat)),
        )) is Some
}

/// The inclusion proof of the leaf at `index` in the tree of `height` over
/// `leaves`. `None` where `index` names no leaf, or where the hasher refuses
/// a node.
pub fn derive_proof(leaves: &Vec<[u8; 32]>, empty: &[u8; 32], index: usize, height: usize) -> (r:
    Option<InclusionProof>)
    ensures
        r is Some <==> index < leaves.len() && siblings_hash(
            digest_views(leaves@),
            empty@,
            index as nat,
            height as nat,
        ),
        r matches Some(p) ==> {
            &&& p.leaf == leaves[index as int]
            &&& p.index == index
            &&& digest_views(p.sibling_path@) == sibling_path(
                digest_views(leaves@),
                empty@,
                index as nat,
                height as nat,
            )
        },
{
    if index >= leaves.len() {
        return None;
    }
    let ghost all = digest_views(leaves@);
    let mut path: Vec<[u8; 32]> = Vec::new();
    let mut pos: usize = index;
    let mut k: usize = 0;
    while k < height
        invariant
            k <= height,
            index < leaves.len(),
            all == digest_views(leaves@),
            pos == shr(index as nat, k as nat),
            path.len() == k,
            forall|j: int|
                0 <= j < k ==> subtree(all, empty@, j as nat, sibling(shr(index as nat, j as nat)))
                    == Some(#[trigger] path@[j]@),
        decreases height - k,
    {
        proof {
            lemma_shr_lt_width(index as nat, leaves.len() as nat, k as nat);
            lemma_width_le_len(leaves.len() as nat, k as nat);
        }
        let beside = if pos % 2 == 0 {
            pos + 1
        } else {
            pos - 1
        };
        match subtree_digest(leaves, empty, k, beside) {
            None => {
                proof {
                    let level = k as int;
                    assert(subtree(
                        all,
                        empty@,
                        level as nat,
                        sibling(shr(index as nat, level as nat)),
                    ) is None);
                }
                return None;
            },
            Some(d) => {
                path.push(d);
            },
        }
        pos = pos / 2;
        k += 1;
    }
    proof {
        assert forall|j: int| 0 <= j < height implies (#[trigger] subtree(
            all,
            empty@,
            j as nat,
            sibling(shr(index as nat, j as nat)),
        )) is Some by {
            assert(path@[j]@ == path@[j]@);
        }
        assert(digest_views(path@) =~= sibling_path(all, empty@, index as nat, height as nat));
    }
    Some(InclusionProof { leaf: leaves[index], index: index as u64, sibling_path: path })
}

/// Checks `proof` against `expected_root` in a tree of `height`.
pub fn verify_proof(proof: &InclusionProof, expected_root: &[u8; 32], height: usize) -> (ok: bool)
    ensures
        ok == verifies(
            proof.leaf@,
            proof.index as nat,
            digest_views(proof.sibling_path@),
            expected_root@,
            height as nat,
        ),
{
    verify(&proof.leaf, proof.index, &proof.sibling_path, expected_root, height)
}

} // verus!
