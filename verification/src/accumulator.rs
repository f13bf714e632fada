//! The append-only accumulator: a root over all committed leaves, kept up to
//! date in `height` hashes per append by remembering, per level, the one
//! completed subtree that still waits for its right neighbour.

use vstd::prelude::*;
use vstd::arithmetic::power2::pow2;
use vstd::arithmetic::power2::lemma_pow2_unfold;
use vstd::arithmetic::power2::lemma_pow2_strictly_increases;
use vstd::arithmetic::power2::lemma2_to64;
use vstd::arithmetic::power2::lemma2_to64_rest;
use crate::digest::digest_eq;
use crate::digest::digest_view;
use crate::digest::digest_views;
use crate::digest::empty_tag;
use crate::digest::hash_empty;
use crate::digest::hash_node;
use crate::digest::sha256_outcome;
use crate::errors::ErrorCode;
use crate::tree::climb;
use crate::tree::shr;
use crate::tree::step;

verus! {

/// The largest supported tree height: `2^63` leaves still count in a `u64`.
pub const MAX_HEIGHT: usize = 63;

/// State of one accumulator.
#[derive(Debug, Clone, PartialEq, Eq)]
pub struct AccumulatorState {
    /// Fixed height of the tree; it holds up to `2^height` leaves.
    pub height: usize,
    /// Number of leaves committed so far.
    pub leaf_count: u64,
    /// Root over all committed leaves.
    pub root: [u8; 32],
    /// Per level, the completed subtree that awaits a sibling, where the
    /// level has one; zero bytes elsewhere.
    pub frontier: Vec<[u8; 32]>,
    /// Digest that stands for every subtree without leaves.
    pub empty: [u8; 32],
}

/// An accumulator state as contracts see it.
pub struct AccumulatorView {
    pub height: nat,
    pub leaf_count: nat,
    pub root: Seq<u8>,
    pub frontier: Seq<Seq<u8>>,
    pub empty: Seq<u8>,
}

impl View for AccumulatorState {
    type V = AccumulatorView;

    open spec fn view(&self) -> AccumulatorView {
        AccumulatorView {
            height: self.height as nat,
            leaf_count: self.leaf_count as nat,
            root: self.root@,
            frontier: digest_views(self.frontier@),
            empty: self.empty@,
        }
    }
}

/// Thirty-two zero bytes: what a frontier level holds while no subtree waits
/// there.
pub open spec fn zero_digest() -> Seq<u8> {
    Seq::new(32, |i: int| 0u8)
}

/// The siblings that the next leaf will have right after it is appended: at a
/// level where its ancestor is a right child, the waiting subtree; elsewhere
/// the empty placeholder.
pub open spec fn pending_path(v: AccumulatorView) -> Seq<Seq<u8>> {
    Seq::new(
        v.frontier.len(),
        |k: int|
            if shr(v.leaf_count, k as nat) % 2 == 1 {
                v.frontier[k]
            } else {
                v.empty
            },
    )
}

/// The root after `leaf` is appended, where every node on the way hashes.
pub open spec fn append_root(v: AccumulatorView, leaf: Seq<u8>) -> Option<Seq<u8>> {
    climb(leaf, v.leaf_count, pending_path(v), v.height)
}

/// Whether appending leaf number `n` changes what waits at level `k`: it does
/// where all lower levels were waiting, so that the new leaf completes them.
pub open spec fn carries(n: nat, k: nat) -> bool {
    shr(n + 1, k) != shr(n, k)
}

/// The frontier after `leaf` is appended: levels that the new leaf completes
/// are cleared, the first level it does not complete takes the subtree built
/// so far, and the levels above keep what they held.
pub open spec fn next_frontier(v: AccumulatorView, leaf: Seq<u8>) -> Seq<Seq<u8>> {
    Seq::new(
        v.frontier.len(),
        |k: int|
            if carries(v.leaf_count, k as nat) {
                if shr(v.leaf_count, k as nat) % 2 == 1 {
                    zero_digest()
                } else {
                    climb(leaf, v.leaf_count, pending_path(v), k as nat).unwrap()
                }
            } else {
                v.frontier[k]
            },
    )
}

/// What an append does: refused with `AccumulatorFull` at `2^height` leaves,
/// with `InvalidHashInput` where the hasher refuses a node, and else the state
/// with one more leaf, the new root and the new frontier.
pub open spec fn append_outcome(v: AccumulatorView, leaf: Seq<u8>) -> Result<
    AccumulatorView,
    ErrorCode,
> {
    if v.leaf_count >= pow2(v.height) {
        Err(ErrorCode::AccumulatorFull)
    } else {
        match append_root(v, leaf) {
            None => Err(ErrorCode::InvalidHashInput),
            Some(root) => Ok(
                AccumulatorView {
                    height: v.height,
                    leaf_count: v.leaf_count + 1,
                    root: root,
                    frontier: next_frontier(v, leaf),
                    empty: v.empty,
                },
            ),
        }
    }
}

/// What creating an accumulator of `height` does: refused with
/// `InvalidTreeHeight` above `MAX_HEIGHT`, with `InvalidHashInput` where the
/// hasher refuses the empty-tree sentinel, and else the state without leaves,
/// whose root is the sentinel's digest.
pub open spec fn new_outcome(height: nat) -> Result<AccumulatorView, ErrorCode> {
    if height > MAX_HEIGHT {
        Err(ErrorCode::InvalidTreeHeight)
    } else {
        match sha256_outcome(empty_tag()) {
            None => Err(ErrorCode::InvalidHashInput),
            Some(e) => Ok(
                AccumulatorView {
                    height: height,
                    leaf_count: 0,
                    root: e,
                    frontier: Seq::new(height, |k: int| zero_digest()),
                    empty: e,
                },
            ),
        }
    }
}

/// Whether `path` leads from `leaf` at `index` to `root` in a tree of
/// `height`: the path has one sibling per level, every node on the way
/// hashes, and the digest reached is `root`, byte for byte.
pub open spec fn verifies(
    leaf: Seq<u8>,
    index: nat,
    path: Seq<Seq<u8>>,
    root: Seq<u8>,
    height: nat,
) -> bool {
    path.len() == height && climb(leaf, index, path, height) == Some(root)
}

/// Once a node on the way up cannot be hashed, nothing above it can.
pub proof fn lemma_climb_none(leaf: Seq<u8>, index: nat, path: Seq<Seq<u8>>, k: nat, h: nat)
    requires
        k <= h,
        climb(leaf, index, path, k) is None,
    ensures
        climb(leaf, index, path, h) is None,
    decreases h,
{
    if k < h {
        lemma_climb_none(leaf, index, path, k, (h - 1) as nat);
    }
}

/// `2^height`, the number of leaves a tree of `height` holds.
pub fn capacity_for(height: usize) -> (c: u64)
    requires
        height <= MAX_HEIGHT,
    ensures
        c == pow2(height as nat),
{
    let mut c: u64 = 1;
    let mut k: usize = 0;
    proof {
        lemma2_to64();
    }
    while k < height
        invariant
            k <= height <= MAX_HEIGHT,
            c == pow2(k as nat),
        decreases height - k,
    {
        proof {
            lemma_pow2_unfold((k + 1) as nat);
            lemma2_to64_rest();
            if k + 1 < 63 {
                lemma_pow2_strictly_increases((k + 1) as nat, 63);
            }
        }
        c = c * 2;
        k += 1;
    }
    c
}

/// Recomputes a root from `leaf` at `index` and `sibling_path`, and compares
/// it with `expected_root`. A path whose length is not `height`, and a node
/// that the hasher refuses, give `false`.
pub fn verify(
    leaf: &[u8; 32],
    index: u64,
    sibling_path: &Vec<[u8; 32]>,
    expected_root: &[u8; 32],
    height: usize,
) -> (ok: bool)
    ensures
        ok == verifies(
            leaf@,
            index as nat,
            digest_views(sibling_path@),
            expected_root@,
            height as nat,
        ),
{
    if sibling_path.len() != height {
        return false;
    }
    let ghost path = digest_views(sibling_path@);
    let mut running: [u8; 32] = *leaf;
    let mut pos: u64 = index;
    let mut k: usize = 0;
    while k < height
        invariant
            k <= height,
            sibling_path.len() == height,
            path == digest_views(sibling_path@),
            pos == shr(index as nat, k as nat),
            Some(running@) == climb(leaf@, index as nat, path, k as nat),
        decreases height - k,
    {
        let sibling = sibling_path[k];
        let parent = if pos % 2 == 0 {
            hash_node(&running, &sibling)
        } else {
            hash_node(&sibling, &running)
        };
        proof {
            assert(path[k as int] == sibling@);
            assert(digest_view(parent) == step(running@, sibling@, pos as nat));
        }
        match parent {
            None => {
                proof {
                    lemma_climb_none(leaf@, index as nat, path, (k + 1) as nat, height as nat);
                }
                return false;
            },
            Some(p) => {
                running = p;
            },
        }
        pos = pos / 2;
        k += 1;
    }
    digest_eq(&running, expected_root)
}

impl AccumulatorState {
    /// Validity of a state: the height is supported, the frontier has one
    /// entry per level, and no more leaves are counted than the tree holds.
    pub open spec fn wf(&self) -> bool {
        &&& self.height <= MAX_HEIGHT
        &&& self.frontier.len() == self.height
        &&& self.leaf_count <= pow2(self.height as nat)
    }

    /// Tests the validity of a state, such as one read back from storage.
    pub fn is_valid(&self) -> (ok: bool)
        ensures
            ok == self.wf(),
    {
        self.height <= MAX_HEIGHT && self.frontier.len() == self.height && self.leaf_count
            <= capacity_for(self.height)
    }

    /// An accumulator of `height` without leaves.
    pub fn new(height: usize) -> (r: Result<AccumulatorState, ErrorCode>)
        ensures
            match r {
                Ok(acc) => acc.wf() && new_outcome(height as nat) == Ok::<
                    AccumulatorView,
                    ErrorCode,
                >(acc@),
                Err(e) => new_outcome(height as nat) == Err::<AccumulatorView, ErrorCode>(e),
            },
    {
        if height > MAX_HEIGHT {
            return Err(ErrorCode::InvalidTreeHeight);
        }
        let empty = match hash_empty() {
            Some(e) => e,
            None => {
                return Err(ErrorCode::InvalidHashInput);
            },
        };
        let zero: [u8; 32] = [0u8; 32];
        let mut frontier: Vec<[u8; 32]> = Vec::new();
        let mut k: usize = 0;
        while k < height
            invariant
                k <= height,
                frontier.len() == k,
                zero@ =~= zero_digest(),
                forall|j: int| 0 <= j < k ==> frontier@[j] == zero,
            decreases height - k,
        {
            frontier.push(zero);
            k += 1;
        }
        let acc = AccumulatorState { height, leaf_count: 0, root: empty, frontier, empty };
        proof {
            assert(acc@.frontier =~= Seq::new(height as nat, |k: int| zero_digest()));
        }
        Ok(acc)
    }

    /// The sibling path that the next leaf will have against the root right
    /// after it is appended.
    pub fn next_path(&self) -> (path: Vec<[u8; 32]>)
        requires
            self.wf(),
        ensures
            digest_views(path@) == pending_path(self@),
    {
        let mut path: Vec<[u8; 32]> = Vec::new();
        let mut pos: u64 = self.leaf_count;
        let mut k: usize = 0;
        while k < self.height
            invariant
                self.wf(),
                k <= self.height,
                path.len() == k,
                pos == shr(self.leaf_count as nat, k as nat),
                forall|j: int| 0 <= j < k ==> path@[j]@ == #[trigger] pending_path(self@)[j],
            decreases self.height - k,
        {
            let entry = if pos % 2 == 1 {
                self.frontier[k]
            } else {
                self.empty
            };
            path.push(entry);
            pos = pos / 2;
            k += 1;
        }
        proof {
            assert(digest_views(path@) =~= pending_path(self@));
        }
        path
    }

    /// Commits `leaf` as the next leaf and returns its index and the new root.
    pub fn append(&mut self, leaf: [u8; 32]) -> (r: Result<(u64, [u8; 32]), ErrorCode>)
        requires
            old(self).wf(),
        ensures
            final(self).wf(),
            match r {
                Ok((index, root)) => {
                    &&& append_outcome(old(self)@, leaf@) == Ok::<AccumulatorView, ErrorCode>(
                        final(self)@,
                    )
                    &&& index == old(self).leaf_count
                    &&& root == final(self).root
                },
                Err(e) => {
                    &&& append_outcome(old(self)@, leaf@) == Err::<AccumulatorView, ErrorCode>(e)
                    &&& *final(self) == *old(self)
                },
            },
    {
        let n = self.leaf_count;
        let height = self.height;
        let cap = capacity_for(height);
        if n >= cap {
            return Err(ErrorCode::AccumulatorFull);
        }
        proof {
            lemma2_to64_rest();
            if height < 63 {
                lemma_pow2_strictly_increases(height as nat, 63);
            }
        }
        let ghost v = self@;
        let zero: [u8; 32] = [0u8; 32];
        let mut frontier: Vec<[u8; 32]> = Vec::new();
        let mut running = leaf;
        let mut pos: u64 = n;
        let mut pos_next: u64 = n + 1;
        let mut k: usize = 0;
        while k < height
            invariant
                *self == *old(self),
                self.wf(),
                v == self@,
                height == self.height,
                n == self.leaf_count,
                n < pow2(height as nat),
                k <= height,
                pos == shr(n as nat, k as nat),
                pos_next == shr((n + 1) as nat, k as nat),
                zero@ =~= zero_digest(),
                Some(running@) == climb(leaf@, n as nat, pending_path(v), k as nat),
                frontier.len() == k,
                forall|j: int| 0 <= j < k ==> frontier@[j]@ == #[trigger] next_frontier(v, leaf@)[j],
            decreases height - k,
        {
            let stored = self.frontier[k];
            let odd = pos % 2 == 1;
            let parent = if odd {
                hash_node(&stored, &running)
            } else {
                hash_node(&running, &self.empty)
            };
            let entry = if pos_next != pos {
                if odd {
                    zero
                } else {
                    running
                }
            } else {
                stored
            };
            proof {
                assert(pending_path(v)[k as int] == if odd {
                    stored@
                } else {
                    self.empty@
                });
                assert(digest_view(parent) == climb(
                    leaf@,
                    n as nat,
                    pending_path(v),
                    (k + 1) as nat,
                ));
                assert(entry@ == next_frontier(v, leaf@)[k as int]);
            }
            frontier.push(entry);
            match parent {
                None => {
                    proof {
                        lemma_climb_none(
                            leaf@,
                            n as nat,
                            pending_path(v),
                            (k + 1) as nat,
                            height as nat,
                        );
                    }
                    return Err(ErrorCode::InvalidHashInput);
                },
                Some(p) => {
                    running = p;
                },
            }
            pos = pos / 2;
            pos_next = pos_next / 2;
            k += 1;
        }
        self.frontier = frontier;
        self.root = running;
        self.leaf_count = n + 1;
        proof {
            assert(self@.frontier =~= next_frontier(v, leaf@));
        }
        Ok((n, running))
    }
}

} // verus!
