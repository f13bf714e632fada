use cpop::accumulator::{verify, AccumulatorState};
use cpop::digest::hash_node;
use cpop::event::initialize_event;
use cpop::inclusion::{derive_proof, full_root, level_width, subtree_digest, verify_proof};
use cpop::ticket::{claim_token, generate_qr_code, verify_token};
use cpop::token::{hash_token_data, verify_claim};
use cpop::digest::hash_bytes;

fn leaf(i: u8) -> [u8; 32] {
    let mut l = [0x50u8; 32];
    l[0] = i;
    l[31] = i.wrapping_mul(7);
    l
}

#[test]
fn level_width_halves_rounding_up() {
    assert_eq!(level_width(0, 0), 0);
    assert_eq!(level_width(0, 5), 0);
    assert_eq!(level_width(5, 0), 5);
    assert_eq!(level_width(5, 1), 3);
    assert_eq!(level_width(5, 2), 2);
    assert_eq!(level_width(5, 3), 1);
    assert_eq!(level_width(5, 4), 1);
    assert_eq!(level_width(8, 3), 1);
    assert_eq!(level_width(9, 3), 2);
    assert_eq!(level_width(usize::MAX, 1), usize::MAX / 2 + 1);
}

#[test]
fn subtree_digest_of_leaves_nodes_and_gaps() {
    let empty = [0xEEu8; 32];
    let leaves = vec![leaf(0), leaf(1), leaf(2)];
    assert_eq!(subtree_digest(&leaves, &empty, 0, 1), Some(leaf(1)));
    assert_eq!(subtree_digest(&leaves, &empty, 0, 3), Some(empty));
    assert_eq!(subtree_digest(&leaves, &empty, 1, 0), hash_node(&leaf(0), &leaf(1)));
    assert_eq!(subtree_digest(&leaves, &empty, 1, 1), hash_node(&leaf(2), &empty));
    assert_eq!(subtree_digest(&leaves, &empty, 1, 2), Some(empty));
    assert_eq!(subtree_digest(&leaves, &empty, 4, 1), Some(empty));
}

#[test]
fn accumulator_root_is_full_recomputation_at_every_step() {
    for height in [0usize, 1, 2, 3, 5] {
        let mut acc = AccumulatorState::new(height).unwrap();
        let mut leaves = Vec::new();
        assert_eq!(full_root(&leaves, &acc.empty, height), Some(acc.root));
        for i in 0..(1u64 << height).min(20) {
            leaves.push(leaf(i as u8));
            let (index, root) = acc.append(leaf(i as u8)).unwrap();
            assert_eq!(index, i);
            assert_eq!(full_root(&leaves, &acc.empty, height), Some(root));
        }
    }
}

#[test]
fn scenario_derived_proof_for_second_of_three_leaves() {
    let mut acc = AccumulatorState::new(3).unwrap();
    let leaves = vec![leaf(0), leaf(1), leaf(2)];
    let mut root = acc.root;
    for l in &leaves {
        root = acc.append(*l).unwrap().1;
    }
    let proof = derive_proof(&leaves, &acc.empty, 1, 3).unwrap();
    assert_eq!(proof.leaf, leaf(1));
    assert_eq!(proof.index, 1);
    assert_eq!(
        proof.sibling_path,
        vec![leaf(0), hash_node(&leaf(2), &acc.empty).unwrap(), acc.empty]
    );
    assert!(verify_proof(&proof, &root, 3));
    assert!(verify(&leaf(1), 1, &proof.sibling_path, &root, 3));
    let mut bad = derive_proof(&leaves, &acc.empty, 1, 3).unwrap();
    bad.sibling_path[1][9] ^= 0x04;
    assert!(!verify_proof(&bad, &root, 3));
}

#[test]
fn every_committed_leaf_has_a_verifying_proof() {
    let height = 4;
    let mut acc = AccumulatorState::new(height).unwrap();
    let mut leaves = Vec::new();
    for i in 0..13u8 {
        leaves.push(leaf(i));
        acc.append(leaf(i)).unwrap();
        for j in 0..leaves.len() {
            let proof = derive_proof(&leaves, &acc.empty, j, height).unwrap();
            assert_eq!(proof.sibling_path.len(), height);
            assert!(verify_proof(&proof, &acc.root, height));
            assert!(!verify(&proof.leaf, proof.index ^ 1, &proof.sibling_path, &acc.root, height));
        }
    }
}

#[test]
fn stale_proof_fails_against_later_root() {
    let mut acc = AccumulatorState::new(3).unwrap();
    let mut leaves = vec![leaf(0)];
    let root1 = acc.append(leaf(0)).unwrap().1;
    let proof1 = derive_proof(&leaves, &acc.empty, 0, 3).unwrap();
    assert!(verify_proof(&proof1, &root1, 3));
    leaves.push(leaf(1));
    let root2 = acc.append(leaf(1)).unwrap().1;
    assert!(!verify_proof(&proof1, &root2, 3));
    assert!(verify_proof(&proof1, &root1, 3));
    let proof2 = derive_proof(&leaves, &acc.empty, 0, 3).unwrap();
    assert!(verify_proof(&proof2, &root2, 3));
}

#[test]
fn derive_proof_needs_a_committed_index() {
    let empty = [0xEEu8; 32];
    let leaves = vec![leaf(0), leaf(1)];
    assert!(derive_proof(&leaves, &empty, 2, 3).is_none());
    assert!(derive_proof(&Vec::new(), &empty, 0, 3).is_none());
    assert!(derive_proof(&leaves, &empty, 1, 3).is_some());
}

#[test]
fn derived_proof_matches_pending_path_at_append() {
    let mut acc = AccumulatorState::new(5).unwrap();
    let mut leaves = Vec::new();
    for i in 0..9u8 {
        let pending = acc.next_path();
        leaves.push(leaf(i));
        acc.append(leaf(i)).unwrap();
        let proof = derive_proof(&leaves, &acc.empty, i as usize, 5).unwrap();
        assert_eq!(proof.sibling_path, pending);
    }
}

#[test]
fn claims_of_an_event_verify_against_its_latest_root() {
    let id = [7u8; 32];
    let mut e = initialize_event(id, [3u8; 32], 5).unwrap();
    let mut records = Vec::new();
    let mut leaves = Vec::new();
    for i in 0..5u8 {
        let s = vec![b's', i];
        let mut t =
            generate_qr_code(&mut e, format!("t{}", i), hash_bytes(&s).unwrap(), 0).unwrap();
        let (record, _) = claim_token(&mut e, &mut t, &s, [i; 32], 100 + i as i64).unwrap();
        leaves.push(hash_token_data(&record).unwrap());
        records.push(record);
    }
    assert_eq!(full_root(&leaves, &e.tree.empty, 20), Some(e.tree.root));
    for (i, record) in records.iter().enumerate() {
        assert_eq!(record.token_id, i as u64 + 1);
        let proof = derive_proof(&leaves, &e.tree.empty, i, 20).unwrap();
        assert!(verify_claim(record, i as u64, &proof.sibling_path, &e.tree.root));
        assert_eq!(verify_token(&e, record, i as u64, &proof.sibling_path), Ok(()));
    }
}
