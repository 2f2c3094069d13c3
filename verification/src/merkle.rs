//! Merkle commitments over disbursement batches.
//!
//! leaf = sha256( 0x00 || recipient_ref[32] || amount_be[16] )
//! node = sha256( 0x01 || min(a, b) || max(a, b) )
//!
//! Nodes are paired left to right; an odd node at the end of a level is
//! carried up unchanged, never duplicated. A proof is the list of siblings
//! from the leaf up, without left/right flags.

use crate::host::{sha256, sha256_digest};
use soroban_sdk::Env;
use vstd::prelude::*;

verus! {

/// Domain separator of a leaf hash.
pub const LEAF_DOMAIN: u8 = 0x00;

/// Domain separator of an internal-node hash.
pub const NODE_DOMAIN: u8 = 0x01;

/// The 16-byte big-endian two's-complement encoding of an `i128`: byte `k`
/// holds bits `120 - 8k` to `127 - 8k`.
pub open spec fn be16(x: i128) -> Seq<u8> {
    Seq::new(16, |k: int| (((x as u128) >> ((8 * (15 - k)) as u32)) & 0xffu128) as u8)
}

/// The bytes hashed for a leaf.
pub open spec fn leaf_bytes(recipient_ref: Seq<u8>, amount: i128) -> Seq<u8> {
    seq![LEAF_DOMAIN] + recipient_ref + be16(amount)
}

/// The bytes hashed for an internal node whose children are `lo` then `hi`.
pub open spec fn node_bytes(lo: Seq<u8>, hi: Seq<u8>) -> Seq<u8> {
    seq![NODE_DOMAIN] + lo + hi
}

/// Lexicographic order on byte strings (a prefix comes first).
pub open spec fn lex_le(a: Seq<u8>, b: Seq<u8>) -> bool
    decreases a.len(),
{
    if a.len() == 0 {
        true
    } else if b.len() == 0 {
        false
    } else if a[0] != b[0] {
        a[0] < b[0]
    } else {
        lex_le(a.drop_first(), b.drop_first())
    }
}

/// The leaf hash of one payout.
pub open spec fn leaf_digest(recipient_ref: Seq<u8>, amount: i128) -> Seq<u8> {
    sha256_digest(leaf_bytes(recipient_ref, amount))
}

/// The hash of an internal node: its children are sorted before hashing.
pub open spec fn node_digest(a: Seq<u8>, b: Seq<u8>) -> Seq<u8> {
    if lex_le(a, b) {
        sha256_digest(node_bytes(a, b))
    } else {
        sha256_digest(node_bytes(b, a))
    }
}

/// What folding a proof onto `acc` yields: `acc = node(acc, sibling)` for each
/// sibling in order.
pub open spec fn fold_digest(acc: Seq<u8>, proof: Seq<Seq<u8>>) -> Seq<u8>
    decreases proof.len(),
{
    if proof.len() == 0 {
        acc
    } else {
        fold_digest(node_digest(acc, proof[0]), proof.drop_first())
    }
}

/// The level above `level`: pairs `(0,1), (2,3), ...` are hashed, and an odd
/// last node is carried up as it is.
pub open spec fn next_level(level: Seq<Seq<u8>>) -> Seq<Seq<u8>> {
    Seq::new(
        ((level.len() + 1) / 2) as nat,
        |j: int|
            if 2 * j + 1 < level.len() {
                node_digest(level[2 * j], level[2 * j + 1])
            } else {
                level[2 * j]
            },
    )
}

/// The root of the tree over `level`; a single node is its own root.
pub open spec fn root_of(level: Seq<Seq<u8>>) -> Seq<u8>
    decreases level.len(),
{
    if level.len() <= 1 {
        level[0]
    } else {
        root_of(next_level(level))
    }
}

/// The byte strings of a list of 32-byte hashes.
pub open spec fn hashes(s: Seq<[u8; 32]>) -> Seq<Seq<u8>> {
    s.map_values(|h: [u8; 32]| h@)
}

/// Compares two hashes by raw big-endian byte value.
fn bytes_le(a: &[u8; 32], b: &[u8; 32]) -> (r: bool)
    ensures
        r == lex_le(a@, b@),
{
    let mut i: usize = 0;
    assert(a@.skip(0) =~= a@ && b@.skip(0) =~= b@);
    while i < 32
        invariant
            i <= 32,
            a@.len() == 32,
            b@.len() == 32,
            lex_le(a@, b@) == lex_le(a@.skip(i as int), b@.skip(i as int)),
        decreases 32 - i,
    {
        let x = a[i];
        let y = b[i];
        assert(a@.skip(i as int)[0] == x && b@.skip(i as int)[0] == y);
        if x != y {
            return x < y;
        }
        assert(a@.skip(i as int).drop_first() =~= a@.skip(i + 1));
        assert(b@.skip(i as int).drop_first() =~= b@.skip(i + 1));
        i = i + 1;
    }
    assert(a@.skip(32) =~= Seq::<u8>::empty());
    true
}

/// Whether two hashes hold the same bytes.
fn bytes_eq(a: &[u8; 32], b: &[u8; 32]) -> (r: bool)
    ensures
        r == (a@ == b@),
{
    let mut i: usize = 0;
    while i < 32
        invariant
            i <= 32,
            a@.len() == 32,
            b@.len() == 32,
            forall|k: int| 0 <= k < i ==> a@[k] == b@[k],
        decreases 32 - i,
    {
        if a[i] != b[i] {
            return false;
        }
        i = i + 1;
    }
    assert(a@ =~= b@);
    true
}

/// Appends the bytes of a hash to `buf`.
fn push_hash(buf: &mut Vec<u8>, h: &[u8; 32])
    ensures
        final(buf)@ == old(buf)@ + h@,
{
    let ghost start = buf@;
    let mut i: usize = 0;
    while i < 32
        invariant
            i <= 32,
            h@.len() == 32,
            buf@ == start + h@.take(i as int),
        decreases 32 - i,
    {
        buf.push(h[i]);
        assert(h@.take(i + 1) =~= h@.take(i as int).push(h@[i as int]));
        i = i + 1;
    }
    assert(h@.take(32) =~= h@);
}

/// The bytes hashed for the leaf of one payout:
/// `0x00 || recipient_ref || amount` with the amount as 16 big-endian bytes.
pub fn leaf_preimage(recipient_ref: &[u8; 32], amount: i128) -> (buf: Vec<u8>)
    ensures
        buf@ == leaf_bytes(recipient_ref@, amount),
{
    let mut buf: Vec<u8> = Vec::new();
    buf.push(LEAF_DOMAIN);
    push_hash(&mut buf, recipient_ref);
    let ghost head = buf@;
    let bits: u128 = amount as u128;
    let mut k: u32 = 0;
    while k < 16
        invariant
            k <= 16,
            bits == amount as u128,
            buf@ == head + be16(amount).take(k as int),
        decreases 16 - k,
    {
        let byte: u8 = ((bits >> (8 * (15 - k))) & 0xffu128) as u8;
        buf.push(byte);
        assert(be16(amount).take(k + 1) =~= be16(amount).take(k as int).push(byte));
        k = k + 1;
    }
    assert(be16(amount).take(16) =~= be16(amount));
    assert(buf@ =~= leaf_bytes(recipient_ref@, amount));
    buf
}

/// The bytes hashed for an internal node: `0x01 || lo || hi`.
pub fn node_preimage(lo: &[u8; 32], hi: &[u8; 32]) -> (buf: Vec<u8>)
    ensures
        buf@ == node_bytes(lo@, hi@),
{
    let mut buf: Vec<u8> = Vec::new();
    buf.push(NODE_DOMAIN);
    push_hash(&mut buf, lo);
    push_hash(&mut buf, hi);
    assert(buf@ =~= node_bytes(lo@, hi@));
    buf
}

/// Canonical leaf hash for one payout. `recipient_ref` is already a salted
/// hash of the beneficiary reference.
pub fn hash_leaf(env: &Env, recipient_ref: &[u8; 32], amount: i128) -> (leaf: [u8; 32])
    ensures
        leaf@ == leaf_digest(recipient_ref@, amount),
{
    let buf = leaf_preimage(recipient_ref, amount);
    sha256(env, &buf)
}

/// Internal-node hash of two children, sorted by raw byte value first.
pub fn hash_node(env: &Env, a: &[u8; 32], b: &[u8; 32]) -> (node: [u8; 32])
    ensures
        node@ == node_digest(a@, b@),
{
    let buf = if bytes_le(a, b) {
        node_preimage(a, b)
    } else {
        node_preimage(b, a)
    };
    sha256(env, &buf)
}

/// Root of the tree built from already-hashed leaves. An odd node at any
/// level is carried up unchanged rather than duplicated.
pub fn compute_root(env: &Env, leaves: &Vec<[u8; 32]>) -> (root: [u8; 32])
    requires
        leaves.len() > 0,
    ensures
        root@ == root_of(hashes(leaves@)),
{
    let mut level: Vec<[u8; 32]> = Vec::new();
    let mut i: usize = 0;
    while i < leaves.len()
        invariant
            i <= leaves.len(),
            level@ == leaves@.take(i as int),
        decreases leaves.len() - i,
    {
        level.push(leaves[i]);
        assert(leaves@.take(i + 1) =~= leaves@.take(i as int).push(leaves@[i as int]));
        i = i + 1;
    }
    assert(leaves@.take(leaves.len() as int) =~= leaves@);
    while level.len() > 1
        invariant
            level.len() >= 1,
            root_of(hashes(level@)) == root_of(hashes(leaves@)),
        decreases level.len(),
    {
        let len = level.len();
        let half = len / 2 + len % 2;
        let ghost lv = hashes(level@);
        let mut next: Vec<[u8; 32]> = Vec::new();
        let mut j: usize = 0;
        while j < half
            invariant
                len == level.len(),
                half == len / 2 + len % 2,
                j <= half,
                lv == hashes(level@),
                lv.len() == len,
                next@.len() == j,
                hashes(next@) == next_level(lv).take(j as int),
            decreases half - j,
        {
            let node = if 2 * j + 1 < len {
                hash_node(env, &level[2 * j], &level[2 * j + 1])
            } else {
                level[2 * j]
            };
            let ghost prev = next@;
            let ghost l = 2 * j as int;
            assert(lv[l] == level@[l]@);
            assert(l + 1 < len ==> lv[l + 1] == level@[l + 1]@);
            assert(node@ == next_level(lv)[j as int]);
            next.push(node);
            assert forall|i: int| 0 <= i <= j implies hashes(next@)[i] == next_level(lv).take(j + 1)[i] by {
                if i < j {
                    assert(hashes(prev)[i] == next_level(lv).take(j as int)[i]);
                }
            }
            assert(hashes(next@) =~= next_level(lv).take(j + 1));
            j = j + 1;
        }
        assert(hashes(next@) =~= next_level(lv));
        level = next;
    }
    level[0]
}

/// Folds an inclusion proof onto `leaf` and tests the result against `root`.
pub fn verify(env: &Env, leaf: &[u8; 32], proof: &Vec<[u8; 32]>, root: &[u8; 32]) -> (ok: bool)
    ensures
        ok == (fold_digest(leaf@, hashes(proof@)) == root@),
{
    let mut acc: [u8; 32] = *leaf;
    let mut k: usize = 0;
    assert(hashes(proof@).skip(0) =~= hashes(proof@));
    while k < proof.len()
        invariant
            k <= proof.len(),
            fold_digest(leaf@, hashes(proof@)) == fold_digest(acc@, hashes(proof@).skip(k as int)),
        decreases proof.len() - k,
    {
        let ghost rest = hashes(proof@).skip(k as int);
        assert(rest[0] == proof@[k as int]@);
        assert(rest.drop_first() =~= hashes(proof@).skip(k + 1));
        acc = hash_node(env, &acc, &proof[k]);
        k = k + 1;
    }
    assert(hashes(proof@).skip(proof.len() as int) =~= Seq::<Seq<u8>>::empty());
    bytes_eq(&acc, root)
}

} // verus!
