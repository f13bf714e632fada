use cpop::accumulator::{capacity_for, verify, AccumulatorState};
use cpop::digest::{digest_eq, encode_node, hash_bytes, hash_empty, hash_node};
use cpop::errors::ErrorCode;

const EMPTY: [u8; 32] = [
    187, 26, 222, 217, 194, 169, 170, 110, 197, 204, 152, 93, 191, 7, 105, 228, 163, 131, 196,
    230, 191, 151, 22, 52, 126, 130, 117, 92, 206, 57, 220, 79,
];

fn leaf(i: u8) -> [u8; 32] {
    [0xA0 + i; 32]
}

fn node(l: &[u8; 32], r: &[u8; 32]) -> [u8; 32] {
    hash_node(l, r).unwrap()
}

#[test]
fn hash_bytes_is_sha256() {
    let expected: [u8; 32] = [
        232, 188, 22, 60, 130, 238, 225, 135, 51, 40, 140, 125, 74, 198, 54, 219, 58, 109, 235, 1,
        62, 242, 211, 123, 104, 50, 43, 226, 14, 220, 69, 204,
    ];
    assert_eq!(hash_bytes(&b"s1".to_vec()), Some(expected));
}

#[test]
fn hash_bytes_of_nothing() {
    let expected: [u8; 32] = [
        227, 176, 196, 66, 152, 252, 28, 20, 154, 251, 244, 200, 153, 111, 185, 36, 39, 174, 65,
        228, 100, 155, 147, 76, 164, 149, 153, 27, 120, 82, 184, 85,
    ];
    assert_eq!(hash_bytes(&Vec::new()), Some(expected));
}

#[test]
fn empty_placeholder_is_digest_of_sentinel() {
    assert_eq!(hash_empty(), Some(EMPTY));
    assert_eq!(hash_bytes(&b"EMPTYv1".to_vec()), Some(EMPTY));
}

#[test]
fn node_preimage_is_tag_left_right() {
    let bytes = encode_node(&[1u8; 32], &[2u8; 32]);
    let mut expected = b"NODEv1".to_vec();
    expected.extend_from_slice(&[1u8; 32]);
    expected.extend_from_slice(&[2u8; 32]);
    assert_eq!(bytes, expected);
    assert_eq!(bytes.len(), 70);
}

#[test]
fn node_digest_exact_value() {
    let expected: [u8; 32] = [
        60, 151, 224, 63, 29, 234, 11, 33, 46, 91, 193, 12, 151, 195, 235, 47, 125, 131, 225, 159,
        61, 199, 241, 238, 106, 75, 40, 29, 37, 246, 76, 242,
    ];
    assert_eq!(hash_node(&[1u8; 32], &[2u8; 32]), Some(expected));
}

#[test]
fn node_digest_depends_on_order() {
    assert_ne!(hash_node(&[1u8; 32], &[2u8; 32]), hash_node(&[2u8; 32], &[1u8; 32]));
}

#[test]
fn node_digest_differs_from_plain_hash() {
    let mut plain = Vec::new();
    plain.extend_from_slice(&[1u8; 32]);
    plain.extend_from_slice(&[2u8; 32]);
    assert_ne!(hash_node(&[1u8; 32], &[2u8; 32]), hash_bytes(&plain));
}

#[test]
fn digest_eq_compares_every_byte() {
    let a = [5u8; 32];
    let mut b = a;
    assert!(digest_eq(&a, &b));
    b[31] = 6;
    assert!(!digest_eq(&a, &b));
    b[31] = 5;
    b[0] = 4;
    assert!(!digest_eq(&a, &b));
}

#[test]
fn capacity_is_power_of_two() {
    assert_eq!(capacity_for(0), 1);
    assert_eq!(capacity_for(3), 8);
    assert_eq!(capacity_for(20), 1_048_576);
    assert_eq!(capacity_for(63), 1u64 << 63);
}

#[test]
fn new_accumulator_is_empty() {
    let acc = AccumulatorState::new(3).unwrap();
    assert_eq!(acc.height, 3);
    assert_eq!(acc.leaf_count, 0);
    assert_eq!(acc.root, EMPTY);
    assert_eq!(acc.empty, EMPTY);
    assert_eq!(acc.frontier, vec![[0u8; 32]; 3]);
}

#[test]
fn new_accumulator_rejects_excessive_height() {
    assert!(matches!(AccumulatorState::new(64), Err(ErrorCode::InvalidTreeHeight)));
    assert!(AccumulatorState::new(63).is_ok());
}

#[test]
fn append_returns_indices_in_order() {
    let mut acc = AccumulatorState::new(3).unwrap();
    for i in 0..5u8 {
        let (index, root) = acc.append(leaf(i)).unwrap();
        assert_eq!(index, i as u64);
        assert_eq!(root, acc.root);
        assert_eq!(acc.leaf_count, i as u64 + 1);
    }
}

#[test]
fn root_after_one_leaf() {
    let mut acc = AccumulatorState::new(3).unwrap();
    let (_, root) = acc.append(leaf(0)).unwrap();
    let expected: [u8; 32] = [
        86, 160, 51, 252, 229, 225, 190, 228, 239, 145, 137, 128, 104, 36, 223, 100, 94, 9, 179,
        140, 5, 183, 91, 102, 242, 223, 140, 148, 52, 94, 51, 121,
    ];
    assert_eq!(root, expected);
    assert_eq!(root, node(&node(&node(&leaf(0), &EMPTY), &EMPTY), &EMPTY));
}

#[test]
fn root_after_three_leaves_is_full_recomputation() {
    let mut acc = AccumulatorState::new(3).unwrap();
    acc.append(leaf(0)).unwrap();
    acc.append(leaf(1)).unwrap();
    let (index, root) = acc.append(leaf(2)).unwrap();
    assert_eq!(index, 2);
    let expected: [u8; 32] = [
        125, 188, 27, 159, 173, 211, 7, 160, 107, 61, 176, 234, 111, 68, 134, 147, 157, 117, 243,
        250, 53, 9, 76, 122, 185, 199, 120, 140, 115, 116, 105, 235,
    ];
    assert_eq!(root, expected);
    let n01 = node(&leaf(0), &leaf(1));
    let n23 = node(&leaf(2), &EMPTY);
    assert_eq!(root, node(&node(&n01, &n23), &EMPTY));
}

#[test]
fn root_of_full_tree_is_full_recomputation() {
    let mut acc = AccumulatorState::new(2).unwrap();
    let mut root = [0u8; 32];
    for i in 0..4u8 {
        root = acc.append(leaf(i)).unwrap().1;
    }
    let expected = node(&node(&leaf(0), &leaf(1)), &node(&leaf(2), &leaf(3)));
    assert_eq!(root, expected);
}

#[test]
fn frontier_holds_waiting_subtrees() {
    let mut acc = AccumulatorState::new(3).unwrap();
    acc.append(leaf(0)).unwrap();
    assert_eq!(acc.frontier, vec![leaf(0), [0u8; 32], [0u8; 32]]);
    acc.append(leaf(1)).unwrap();
    let n01 = node(&leaf(0), &leaf(1));
    assert_eq!(acc.frontier, vec![[0u8; 32], n01, [0u8; 32]]);
    acc.append(leaf(2)).unwrap();
    assert_eq!(acc.frontier, vec![leaf(2), n01, [0u8; 32]]);
    acc.append(leaf(3)).unwrap();
    let n0123 = node(&n01, &node(&leaf(2), &leaf(3)));
    assert_eq!(acc.frontier, vec![[0u8; 32], [0u8; 32], n0123]);
}

#[test]
fn append_fails_when_full() {
    let mut acc = AccumulatorState::new(1).unwrap();
    acc.append(leaf(0)).unwrap();
    acc.append(leaf(1)).unwrap();
    let root = acc.root;
    let frontier = acc.frontier.clone();
    assert!(matches!(acc.append(leaf(2)), Err(ErrorCode::AccumulatorFull)));
    assert_eq!(acc.leaf_count, 2);
    assert_eq!(acc.root, root);
    assert_eq!(acc.frontier, frontier);
}

#[test]
fn height_zero_holds_one_leaf() {
    let mut acc = AccumulatorState::new(0).unwrap();
    let (index, root) = acc.append(leaf(0)).unwrap();
    assert_eq!(index, 0);
    assert_eq!(root, leaf(0));
    assert!(verify(&leaf(0), 0, &Vec::new(), &root, 0));
    assert!(matches!(acc.append(leaf(1)), Err(ErrorCode::AccumulatorFull)));
}

#[test]
fn scenario_proof_for_second_of_three_leaves() {
    let mut acc = AccumulatorState::new(3).unwrap();
    acc.append(leaf(0)).unwrap();
    acc.append(leaf(1)).unwrap();
    let (_, root) = acc.append(leaf(2)).unwrap();
    let path = vec![leaf(0), node(&leaf(2), &EMPTY), EMPTY];
    assert!(verify(&leaf(1), 1, &path, &root, 3));
    for level in 0..3 {
        for byte in [0usize, 17, 31] {
            let mut bad = path.clone();
            bad[level][byte] ^= 1;
            assert!(!verify(&leaf(1), 1, &bad, &root, 3));
        }
    }
}

#[test]
fn verify_rejects_wrong_index_leaf_and_root() {
    let mut acc = AccumulatorState::new(3).unwrap();
    acc.append(leaf(0)).unwrap();
    acc.append(leaf(1)).unwrap();
    let (_, root) = acc.append(leaf(2)).unwrap();
    let path = vec![leaf(0), node(&leaf(2), &EMPTY), EMPTY];
    assert!(!verify(&leaf(1), 0, &path, &root, 3));
    assert!(!verify(&leaf(1), 3, &path, &root, 3));
    assert!(!verify(&leaf(2), 1, &path, &root, 3));
    for byte in 0..32 {
        let mut bad = root;
        bad[byte] ^= 0x80;
        assert!(!verify(&leaf(1), 1, &path, &bad, 3));
    }
}

#[test]
fn verify_rejects_path_of_wrong_length() {
    let mut acc = AccumulatorState::new(3).unwrap();
    let (_, root) = acc.append(leaf(0)).unwrap();
    let path = vec![EMPTY, EMPTY, EMPTY];
    assert!(verify(&leaf(0), 0, &path, &root, 3));
    assert!(!verify(&leaf(0), 0, &path[..2].to_vec(), &root, 3));
    let mut long = path.clone();
    long.push(EMPTY);
    assert!(!verify(&leaf(0), 0, &long, &root, 3));
    assert!(!verify(&leaf(0), 0, &path, &root, 2));
}

#[test]
fn verify_every_leaf_of_five() {
    let mut acc = AccumulatorState::new(3).unwrap();
    for i in 0..5u8 {
        acc.append(leaf(i)).unwrap();
    }
    let root = acc.root;
    let n01 = node(&leaf(0), &leaf(1));
    let n23 = node(&leaf(2), &leaf(3));
    let n4 = node(&leaf(4), &EMPTY);
    let left = node(&n01, &n23);
    let right = node(&n4, &EMPTY);
    assert_eq!(root, node(&left, &right));
    assert!(verify(&leaf(0), 0, &vec![leaf(1), n23, right], &root, 3));
    assert!(verify(&leaf(1), 1, &vec![leaf(0), n23, right], &root, 3));
    assert!(verify(&leaf(2), 2, &vec![leaf(3), n01, right], &root, 3));
    assert!(verify(&leaf(3), 3, &vec![leaf(2), n01, right], &root, 3));
    assert!(verify(&leaf(4), 4, &vec![EMPTY, EMPTY, left], &root, 3));
}

#[test]
fn pending_path_verifies_appended_leaf() {
    let mut acc = AccumulatorState::new(4).unwrap();
    for i in 0..11u8 {
        let path = acc.next_path();
        assert_eq!(path.len(), 4);
        let (index, root) = acc.append(leaf(i)).unwrap();
        assert!(verify(&leaf(i), index, &path, &root, 4));
        let mut bad = path.clone();
        bad[(i % 4) as usize][3] ^= 0xff;
        assert!(!verify(&leaf(i), index, &bad, &root, 4));
    }
}

#[test]
fn pending_path_of_third_leaf() {
    let mut acc = AccumulatorState::new(3).unwrap();
    acc.append(leaf(0)).unwrap();
    acc.append(leaf(1)).unwrap();
    let path = acc.next_path();
    assert_eq!(path, vec![EMPTY, node(&leaf(0), &leaf(1)), EMPTY]);
}
