//! Digests: the hash function behind every commitment, the domain tags that
//! keep leaves, nodes and the empty tree apart, and byte-exact comparison.

use vstd::prelude::*;

verus! {

/// The error type of `light_hasher`.
#[verifier::external_type_specification]
#[verifier::external_body]
pub struct ExHasherError(light_hasher::HasherError);

/// What `light_hasher`'s SHA-256 makes of a byte string: the digest, or
/// `None` where the hasher reports an error.
pub uninterp spec fn sha256_outcome(data: Seq<u8>) -> Option<Seq<u8>>;

/// Calls `<light_hasher::Sha256 as light_hasher::Hasher>::hash` on `data`.
///
/// Nothing is proved of this function. Its contract claims that the call is
/// deterministic: the result is `Ok` exactly where `sha256_outcome` of the
/// bytes is `Some`, and then holds that digest.
#[verifier::external_body]
fn sha256(data: &[u8]) -> (r: Result<[u8; 32], light_hasher::HasherError>)
    ensures
        r is Ok <==> sha256_outcome(data@) is Some,
        r matches Ok(d) ==> sha256_outcome(data@) == Some(d@),
{
    <light_hasher::Sha256 as light_hasher::Hasher>::hash(data)
}

/// An exec digest, or its absence, as the byte sequence contracts speak of.
pub open spec fn digest_view(d: Option<[u8; 32]>) -> Option<Seq<u8>> {
    match d {
        Some(a) => Some(a@),
        None => None,
    }
}

/// The byte sequences held by a list of digests, in order.
pub open spec fn digest_views(s: Seq<[u8; 32]>) -> Seq<Seq<u8>> {
    Seq::new(s.len(), |i: int| s[i]@)
}

/// Tag that opens the preimage of every leaf: the bytes of `CLAIMv1`.
pub open spec fn leaf_tag() -> Seq<u8> {
    seq![67u8, 76u8, 65u8, 73u8, 77u8, 118u8, 49u8]
}

/// Tag that opens the preimage of every internal node: the bytes of `NODEv1`.
pub open spec fn node_tag() -> Seq<u8> {
    seq![78u8, 79u8, 68u8, 69u8, 118u8, 49u8]
}

/// The sentinel whose digest stands for an empty subtree: the bytes of
/// `EMPTYv1`.
pub open spec fn empty_tag() -> Seq<u8> {
    seq![69u8, 77u8, 80u8, 84u8, 89u8, 118u8, 49u8]
}

/// Preimage of an internal node: the node tag, the left child's digest, the
/// right child's digest.
pub open spec fn node_preimage(left: Seq<u8>, right: Seq<u8>) -> Seq<u8> {
    node_tag() + left + right
}

/// Digest of the internal node over two children.
pub open spec fn node_digest(left: Seq<u8>, right: Seq<u8>) -> Option<Seq<u8>> {
    sha256_outcome(node_preimage(left, right))
}

/// Digest of `data`, or `None` where the hasher refuses the input.
pub fn hash_bytes(data: &Vec<u8>) -> (r: Option<[u8; 32]>)
    ensures
        digest_view(r) == sha256_outcome(data@),
{
    match sha256(data.as_slice()) {
        Ok(d) => Some(d),
        Err(_) => None,
    }
}

/// Appends the 32 bytes of `d` to `out`.
pub fn push_digest(out: &mut Vec<u8>, d: &[u8; 32])
    ensures
        final(out)@ == old(out)@ + d@,
{
    let mut i: usize = 0;
    while i < 32
        invariant
            i <= 32,
            out@ == old(out)@ + d@.subrange(0, i as int),
        decreases 32 - i,
    {
        out.push(d[i]);
        i += 1;
    }
}

/// The bytes of the node tag.
pub fn node_tag_bytes() -> (out: Vec<u8>)
    ensures
        out@ == node_tag(),
{
    let mut out: Vec<u8> = Vec::new();
    out.push(78u8);
    out.push(79u8);
    out.push(68u8);
    out.push(69u8);
    out.push(118u8);
    out.push(49u8);
    out
}

/// The bytes of the empty-tree sentinel.
pub fn empty_tag_bytes() -> (out: Vec<u8>)
    ensures
        out@ == empty_tag(),
{
    let mut out: Vec<u8> = Vec::new();
    out.push(69u8);
    out.push(77u8);
    out.push(80u8);
    out.push(84u8);
    out.push(89u8);
    out.push(118u8);
    out.push(49u8);
    out
}

/// The byte string that is hashed for an internal node.
pub fn encode_node(left: &[u8; 32], right: &[u8; 32]) -> (out: Vec<u8>)
    ensures
        out@ == node_preimage(left@, right@),
{
    let mut out = node_tag_bytes();
    push_digest(&mut out, left);
    push_digest(&mut out, right);
    out
}

/// Digest of the internal node over `left` and `right`.
pub fn hash_node(left: &[u8; 32], right: &[u8; 32]) -> (r: Option<[u8; 32]>)
    ensures
        digest_view(r) == node_digest(left@, right@),
{
    let bytes = encode_node(left, right);
    hash_bytes(&bytes)
}

/// Digest of the empty-tree sentinel.
pub fn hash_empty() -> (r: Option<[u8; 32]>)
    ensures
        digest_view(r) == sha256_outcome(empty_tag()),
{
    let bytes = empty_tag_bytes();
    hash_bytes(&bytes)
}

/// Byte-for-byte equality of two digests.
pub fn digest_eq(a: &[u8; 32], b: &[u8; 32]) -> (r: bool)
    ensures
        r == (a@ == b@),
{
    let mut i: usize = 0;
    while i < 32
        invariant
            i <= 32,
            forall|j: int| 0 <= j < i ==> a@[j] == b@[j],
        decreases 32 - i,
    {
        if a[i] != b[i] {
            return false;
        }
        i += 1;
    }
    proof {
        assert(a@ =~= b@);
    }
    true
}

} // verus!
