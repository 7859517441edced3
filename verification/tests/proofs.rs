use anchor_lang::solana_program::keccak;
use merkle_action_solana::hasher::{hash, hash_pair};
use merkle_action_solana::merkle::{combine, compute_root, verify_proof};

fn leaf(tag: u8) -> [u8; 32] {
    hash(&[tag])
}

fn flip(digest: [u8; 32], at: usize) -> [u8; 32] {
    let mut out = digest;
    out[at] ^= 0x01;
    out
}

#[test]
fn combine_hashes_smaller_digest_first() {
    let small = [0x01u8; 32];
    let large = [0x02u8; 32];
    let expected = keccak::hashv(&[&small, &large]).to_bytes();
    assert_eq!(combine(&small, &large), expected);
    assert_eq!(combine(&large, &small), expected);
}

#[test]
fn combine_is_commutative() {
    let a = leaf(1);
    let b = leaf(2);
    assert_eq!(combine(&a, &b), combine(&b, &a));
}

#[test]
fn combine_of_equal_digests() {
    let a = leaf(5);
    assert_eq!(combine(&a, &a), hash_pair(&a, &a));
}

#[test]
fn compute_root_of_empty_proof_is_leaf() {
    let l = leaf(1);
    assert_eq!(compute_root(&Vec::new(), l), l);
}

#[test]
fn compute_root_folds_siblings_in_order() {
    let l = leaf(1);
    let s1 = leaf(2);
    let s2 = leaf(3);
    let expected = combine(&combine(&l, &s1), &s2);
    assert_eq!(compute_root(&vec![s1, s2], l), expected);
}

#[test]
fn compute_root_depends_on_sibling_order() {
    let l = leaf(1);
    let s1 = leaf(2);
    let s2 = leaf(3);
    assert_ne!(compute_root(&vec![s1, s2], l), compute_root(&vec![s2, s1], l));
}

#[test]
fn empty_proof_verifies_only_leaf_as_root() {
    let l = leaf(1);
    assert!(verify_proof(Vec::new(), l, l));
    assert!(!verify_proof(Vec::new(), leaf(2), l));
    assert!(!verify_proof(Vec::new(), flip(l, 31), l));
}

#[test]
fn computed_root_verifies() {
    let l = leaf(10);
    let mut siblings = Vec::new();
    for depth in 0..6u8 {
        siblings.push(leaf(100 + depth));
        let root = compute_root(&siblings, l);
        assert!(verify_proof(siblings.clone(), root, l));
    }
}

#[test]
fn four_leaf_tree_verifies_every_leaf() {
    let leaves = [leaf(1), leaf(2), leaf(3), leaf(4)];
    let left = combine(&leaves[0], &leaves[1]);
    let right = combine(&leaves[2], &leaves[3]);
    let root = combine(&left, &right);
    assert!(verify_proof(vec![leaves[1], right], root, leaves[0]));
    assert!(verify_proof(vec![leaves[0], right], root, leaves[1]));
    assert!(verify_proof(vec![leaves[3], left], root, leaves[2]));
    assert!(verify_proof(vec![leaves[2], left], root, leaves[3]));
}

#[test]
fn proof_for_another_leaf_is_rejected() {
    let leaves = [leaf(1), leaf(2), leaf(3), leaf(4)];
    let left = combine(&leaves[0], &leaves[1]);
    let right = combine(&leaves[2], &leaves[3]);
    let root = combine(&left, &right);
    assert!(!verify_proof(vec![leaves[0], right], root, leaves[0]));
    assert!(!verify_proof(vec![leaves[3], left], root, leaves[0]));
}

#[test]
fn flipped_proof_byte_is_rejected() {
    let l = leaf(1);
    let proof = vec![leaf(2), leaf(3), leaf(4)];
    let root = compute_root(&proof, l);
    for element in 0..proof.len() {
        for at in [0usize, 15, 31] {
            let mut bad = proof.clone();
            bad[element] = flip(bad[element], at);
            assert!(!verify_proof(bad, root, l));
        }
    }
}

#[test]
fn flipped_leaf_byte_is_rejected() {
    let l = leaf(1);
    let proof = vec![leaf(2), leaf(3)];
    let root = compute_root(&proof, l);
    for at in [0usize, 16, 31] {
        assert!(!verify_proof(proof.clone(), root, flip(l, at)));
    }
}

#[test]
fn flipped_root_byte_is_rejected() {
    let l = leaf(1);
    let proof = vec![leaf(2), leaf(3)];
    let root = compute_root(&proof, l);
    for at in [0usize, 16, 31] {
        assert!(!verify_proof(proof.clone(), flip(root, at), l));
    }
}

#[test]
fn truncated_and_extended_proofs_are_rejected() {
    let l = leaf(1);
    let proof = vec![leaf(2), leaf(3)];
    let root = compute_root(&proof, l);
    assert!(!verify_proof(vec![leaf(2)], root, l));
    assert!(!verify_proof(vec![leaf(2), leaf(3), leaf(4)], root, l));
    assert!(!verify_proof(Vec::new(), root, l));
}

#[test]
fn verification_is_deterministic() {
    let l = leaf(1);
    let proof = vec![leaf(2), leaf(3)];
    let root = compute_root(&proof, l);
    assert_eq!(
        verify_proof(proof.clone(), root, l),
        verify_proof(proof.clone(), root, l)
    );
    assert_eq!(compute_root(&proof, l), root);
}
