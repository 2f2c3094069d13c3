use cygnus_programme::merkle::{
    compute_root, hash_leaf, hash_node, leaf_preimage, node_preimage, verify, LEAF_DOMAIN,
    NODE_DOMAIN,
};
use cygnus_programme::ProgrammeContract;
use sha2::{Digest, Sha256};
use soroban_sdk::Env;

fn sha(bytes: &[u8]) -> [u8; 32] {
    let d = Sha256::digest(bytes);
    let mut out = [0u8; 32];
    out.copy_from_slice(d.as_slice());
    out
}

#[test]
fn leaf_preimage_layout_negative_amount() {
    let buf = leaf_preimage(&[7u8; 32], -2);
    let mut expected = vec![0x00u8];
    expected.extend_from_slice(&[7u8; 32]);
    expected.extend_from_slice(&[0xffu8; 15]);
    expected.push(0xfe);
    assert_eq!(buf, expected);
    assert_eq!(buf.len(), 49);
}

#[test]
fn leaf_preimage_layout_positive_amount() {
    let buf = leaf_preimage(&[0u8; 32], 600);
    assert_eq!(buf[0], LEAF_DOMAIN);
    assert_eq!(&buf[33..47], &[0u8; 14]);
    assert_eq!(buf[47], 0x02);
    assert_eq!(buf[48], 0x58);
    assert_eq!(&buf[33..], &600i128.to_be_bytes());
}

#[test]
fn leaf_preimage_extreme_amounts() {
    let min = leaf_preimage(&[1u8; 32], i128::MIN);
    assert_eq!(&min[33..], &i128::MIN.to_be_bytes());
    let max = leaf_preimage(&[1u8; 32], i128::MAX);
    assert_eq!(&max[33..], &i128::MAX.to_be_bytes());
}

#[test]
fn node_preimage_layout() {
    let buf = node_preimage(&[3u8; 32], &[4u8; 32]);
    assert_eq!(buf.len(), 65);
    assert_eq!(buf[0], NODE_DOMAIN);
    assert_eq!(&buf[1..33], &[3u8; 32]);
    assert_eq!(&buf[33..], &[4u8; 32]);
}

#[test]
fn hash_leaf_is_sha256_of_the_encoding() {
    let env = Env::default();
    let r = [9u8; 32];
    let leaf = hash_leaf(&env, &r, 12);
    assert_eq!(leaf, sha(&leaf_preimage(&r, 12)));
    assert_ne!(leaf, r);
    // The contract exposes the same encoding.
    assert_eq!(ProgrammeContract::hash_leaf(&env, r, 12), leaf);
}

#[test]
fn hash_node_sorts_children() {
    let env = Env::default();
    let a = [2u8; 32];
    let mut b = [2u8; 32];
    b[31] = 1; // b < a, differing in the last byte only
    let expected = sha(&node_preimage(&b, &a));
    assert_eq!(hash_node(&env, &a, &b), expected);
    assert_eq!(hash_node(&env, &b, &a), expected);
    assert_ne!(hash_node(&env, &a, &b), sha(&node_preimage(&a, &b)));
}

#[test]
fn leaf_and_node_encodings_are_separated() {
    let leaf = leaf_preimage(&[5u8; 32], 1);
    let node = node_preimage(&[5u8; 32], &[5u8; 32]);
    assert_ne!(leaf[0], node[0]);
}

#[test]
fn single_leaf_tree_root_is_the_leaf() {
    let env = Env::default();
    let leaf = [42u8; 32];
    assert_eq!(compute_root(&env, &vec![leaf]), leaf);
    assert!(verify(&env, &leaf, &Vec::new(), &leaf));
}

#[test]
fn odd_tail_is_carried_not_duplicated() {
    let env = Env::default();
    let l = [[1u8; 32], [2u8; 32], [3u8; 32]];
    let root = compute_root(&env, &l.to_vec());
    let left = hash_node(&env, &l[0], &l[1]);
    assert_eq!(root, hash_node(&env, &left, &l[2]));
    assert_ne!(root, hash_node(&env, &left, &hash_node(&env, &l[2], &l[2])));
    // The tail leaf proves with one sibling, the pair below it.
    assert!(verify(&env, &l[2], &vec![left], &root));
}

#[test]
fn four_leaf_tree() {
    let env = Env::default();
    let l = [[1u8; 32], [2u8; 32], [3u8; 32], [4u8; 32]];
    let root = compute_root(&env, &l.to_vec());
    let a = hash_node(&env, &l[0], &l[1]);
    let b = hash_node(&env, &l[2], &l[3]);
    assert_eq!(root, hash_node(&env, &a, &b));
    assert!(verify(&env, &l[3], &vec![l[2], a], &root));
    assert!(!verify(&env, &l[3], &vec![l[1], a], &root));
}
