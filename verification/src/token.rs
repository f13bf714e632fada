//! The claim record that becomes a leaf, its byte-exact encoding, and the
//! check of a record against a root.

use vstd::prelude::*;
use crate::accumulator::verifies;
use crate::accumulator::verify;
use crate::digest::digest_view;
use crate::digest::digest_views;
use crate::digest::hash_bytes;
use crate::digest::leaf_tag;
use crate::digest::push_digest;
use crate::digest::sha256_outcome;

verus! {

/// Height of the tree that every event keeps: room for `2^20` claims.
pub const MERKLE_TREE_HEIGHT: usize = 20;

/// One claim: who claimed which event's ticket, as the how-manieth claim of
/// that event, and when. Only its digest is ever stored.
#[derive(Debug, Clone, Copy, PartialEq, Eq)]
pub struct TokenData {
    /// The event the claim belongs to.
    pub event: [u8; 32],
    /// Who claimed.
    pub claimer: [u8; 32],
    /// Sequence number of the claim within its event, from 1.
    pub token_id: u64,
    /// When the claim was made.
    pub claim_time: i64,
}

/// A claim record as contracts see it.
pub struct TokenDataView {
    pub event: Seq<u8>,
    pub claimer: Seq<u8>,
    pub token_id: nat,
    pub claim_time: int,
}

impl View for TokenData {
    type V = TokenDataView;

    open spec fn view(&self) -> TokenDataView {
        TokenDataView {
            event: self.event@,
            claimer: self.claimer@,
            token_id: self.token_id as nat,
            claim_time: self.claim_time as int,
        }
    }
}

/// The `len` low-order bytes of `x`, least significant first.
pub open spec fn le_bytes(x: nat, len: nat) -> Seq<u8>
    decreases len,
{
    if len == 0 {
        Seq::empty()
    } else {
        seq![(x % 256) as u8] + le_bytes(x / 256, (len - 1) as nat)
    }
}

/// The unsigned 64-bit number with the bits of `x` in two's complement.
pub open spec fn twos_complement(x: int) -> nat {
    if x >= 0 {
        x as nat
    } else {
        (x + 0x1_0000_0000_0000_0000) as nat
    }
}

/// The byte string that is hashed for a claim record: the leaf tag, the
/// event, the claimer, the sequence number in eight little-endian bytes, and
/// the claim time in eight little-endian bytes of two's complement.
pub open spec fn leaf_preimage(data: TokenDataView) -> Seq<u8> {
    leaf_tag() + data.event + data.claimer + le_bytes(data.token_id, 8) + le_bytes(
        twos_complement(data.claim_time),
        8,
    )
}

/// The leaf that commits a claim record.
pub open spec fn leaf_digest(data: TokenDataView) -> Option<Seq<u8>> {
    sha256_outcome(leaf_preimage(data))
}

/// The bytes of the leaf tag.
pub fn leaf_tag_bytes() -> (out: Vec<u8>)
    ensures
        out@ == leaf_tag(),
{
    let mut out: Vec<u8> = Vec::new();
    out.push(67u8);
    out.push(76u8);
    out.push(65u8);
    out.push(73u8);
    out.push(77u8);
    out.push(118u8);
    out.push(49u8);
    out
}

/// Appends the eight bytes of `x` to `out`, least significant first.
pub fn push_u64_le(out: &mut Vec<u8>, x: u64)
    ensures
        final(out)@ == old(out)@ + le_bytes(x as nat, 8),
{
    let mut v: u64 = x;
    let mut k: usize = 0;
    proof {
        assert(out@ + le_bytes(v as nat, 8) =~= old(out)@ + le_bytes(x as nat, 8));
    }
    while k < 8
        invariant
            k <= 8,
            out@ + le_bytes(v as nat, (8 - k) as nat) == old(out)@ + le_bytes(x as nat, 8),
        decreases 8 - k,
    {
        let ghost before = out@;
        let b: u8 = (v % 256) as u8;
        out.push(b);
        proof {
            let rest = le_bytes((v / 256) as nat, (8 - k - 1) as nat);
            assert(le_bytes(v as nat, (8 - k) as nat) == seq![b] + rest);
            assert(out@ + rest =~= before + (seq![b] + rest));
        }
        v = v / 256;
        k += 1;
    }
    proof {
        assert(out@ + le_bytes(v as nat, 0) =~= out@);
    }
}

/// The bits of `x` in two's complement, as an unsigned number.
pub fn to_twos_complement(x: i64) -> (u: u64)
    ensures
        u == twos_complement(x as int),
{
    if x >= 0 {
        x as u64
    } else {
        let low: u64 = (x - i64::MIN) as u64;
        low + 0x8000_0000_0000_0000u64
    }
}

/// The byte string that is hashed for `data`.
pub fn encode_token_data(data: &TokenData) -> (out: Vec<u8>)
    ensures
        out@ == leaf_preimage(data@),
{
    let mut out = leaf_tag_bytes();
    push_digest(&mut out, &data.event);
    push_digest(&mut out, &data.claimer);
    push_u64_le(&mut out, data.token_id);
    push_u64_le(&mut out, to_twos_complement(data.claim_time));
    out
}

/// The leaf that commits `data`, or `None` where the hasher refuses it.
pub fn hash_token_data(data: &TokenData) -> (r: Option<[u8; 32]>)
    ensures
        digest_view(r) == leaf_digest(data@),
{
    let bytes = encode_token_data(data);
    hash_bytes(&bytes)
}

/// Whether `path` leads from the leaf of `data` at `index` to `root` in a
/// tree of `MERKLE_TREE_HEIGHT`.
pub open spec fn claim_verifies(
    data: TokenDataView,
    index: nat,
    path: Seq<Seq<u8>>,
    root: Seq<u8>,
) -> bool {
    match leaf_digest(data) {
        Some(leaf) => verifies(leaf, index, path, root, MERKLE_TREE_HEIGHT as nat),
        None => false,
    }
}

/// Checks that the claim `data` is the leaf at `index` under `expected_root`,
/// given the leaf's sibling path.
pub fn verify_claim(
    data: &TokenData,
    index: u64,
    sibling_path: &Vec<[u8; 32]>,
    expected_root: &[u8; 32],
) -> (ok: bool)
    ensures
        ok == claim_verifies(data@, index as nat, digest_views(sibling_path@), expected_root@),
{
    match hash_token_data(data) {
        Some(leaf) => verify(&leaf, index, sibling_path, expected_root, MERKLE_TREE_HEIGHT),
        None => false,
    }
}

} // verus!
