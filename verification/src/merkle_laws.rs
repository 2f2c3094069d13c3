//! What the Merkle construction guarantees.

use crate::host::sha256_digest;
use crate::merkle::{
    be16, fold_digest, leaf_bytes, leaf_digest, lex_le, next_level, node_bytes, node_digest,
    root_of, LEAF_DOMAIN, NODE_DOMAIN,
};
use vstd::prelude::*;

verus! {

/// The sibling list that proves leaf `i` of `level`: at each level the
/// partner of the node on the path, none where the node is an odd tail
/// carried up alone.
pub open spec fn proof_path(level: Seq<Seq<u8>>, i: int) -> Seq<Seq<u8>>
    decreases level.len(),
{
    if level.len() <= 1 {
        Seq::empty()
    } else {
        let rest = proof_path(next_level(level), i / 2);
        if i % 2 == 0 {
            if i + 1 < level.len() {
                seq![level[i + 1]] + rest
            } else {
                rest
            }
        } else {
            seq![level[i - 1]] + rest
        }
    }
}

/// Any two byte strings are ordered one way or the other.
proof fn lemma_lex_total(a: Seq<u8>, b: Seq<u8>)
    ensures
        lex_le(a, b) || lex_le(b, a),
    decreases a.len(),
{
    if a.len() > 0 && b.len() > 0 && a[0] == b[0] {
        lemma_lex_total(a.drop_first(), b.drop_first());
    }
}

/// Byte strings ordered both ways are equal.
proof fn lemma_lex_antisymmetric(a: Seq<u8>, b: Seq<u8>)
    requires
        lex_le(a, b),
        lex_le(b, a),
    ensures
        a == b,
    decreases a.len(),
{
    if a.len() > 0 {
        lemma_lex_antisymmetric(a.drop_first(), b.drop_first());
        assert(a =~= seq![a[0]] + a.drop_first());
        assert(b =~= seq![b[0]] + b.drop_first());
    } else {
        assert(b.len() == 0);
        assert(a =~= b);
    }
}

/// Children are sorted before hashing, so a node does not depend on the
/// order in which its children are given; proofs need no left/right flags.
pub proof fn lemma_node_symmetric(a: Seq<u8>, b: Seq<u8>)
    ensures
        node_digest(a, b) == node_digest(b, a),
{
    lemma_lex_total(a, b);
    if lex_le(a, b) && lex_le(b, a) {
        lemma_lex_antisymmetric(a, b);
    }
}

/// Folding onto `acc` a proof that starts with sibling `x`.
proof fn lemma_fold_cons(acc: Seq<u8>, x: Seq<u8>, rest: Seq<Seq<u8>>)
    ensures
        fold_digest(acc, seq![x] + rest) == fold_digest(node_digest(acc, x), rest),
{
    let s = seq![x] + rest;
    assert(s[0] == x);
    assert(s.drop_first() =~= rest);
}

/// Every leaf of a tree verifies against the tree's root with its proof path.
pub proof fn lemma_every_leaf_verifies(level: Seq<Seq<u8>>, i: int)
    requires
        0 <= i < level.len(),
    ensures
        fold_digest(level[i], proof_path(level, i)) == root_of(level),
    decreases level.len(),
{
    if level.len() > 1 {
        let up = next_level(level);
        let j = i / 2;
        lemma_every_leaf_verifies(up, j);
        let rest = proof_path(up, j);
        if i % 2 == 0 {
            if i + 1 < level.len() {
                lemma_fold_cons(level[i], level[i + 1], rest);
                assert(up[j] == node_digest(level[i], level[i + 1]));
            } else {
                assert(up[j] == level[i]);
            }
        } else {
            lemma_fold_cons(level[i], level[i - 1], rest);
            lemma_node_symmetric(level[i], level[i - 1]);
            assert(up[j] == node_digest(level[i - 1], level[i]));
        }
    }
}

/// A leaf's hashed bytes never equal an internal node's: the domain
/// separators differ, so an internal node cannot be passed off as a leaf.
pub proof fn lemma_leaf_bytes_are_not_node_bytes(
    recipient_ref: Seq<u8>,
    amount: i128,
    lo: Seq<u8>,
    hi: Seq<u8>,
)
    ensures
        leaf_bytes(recipient_ref, amount) != node_bytes(lo, hi),
{
    assert(leaf_bytes(recipient_ref, amount)[0] == LEAF_DOMAIN);
    assert(node_bytes(lo, hi)[0] == NODE_DOMAIN);
}

/// A single-leaf tree has that leaf as its root, and its proof is empty.
pub proof fn lemma_single_leaf_root(leaf: Seq<u8>)
    ensures
        root_of(seq![leaf]) == leaf,
        proof_path(seq![leaf], 0) == Seq::<Seq<u8>>::empty(),
{
}

/// A leaf hashes the byte 0x00, then the recipient reference byte for byte,
/// then the 16-byte encoding of the amount.
pub proof fn lemma_leaf_layout(recipient_ref: Seq<u8>, amount: i128)
    ensures
        ({
            let b = leaf_bytes(recipient_ref, amount);
            let n = recipient_ref.len() as int;
            &&& b.len() == n + 17
            &&& b[0] == 0u8
            &&& b.subrange(1, n + 1) == recipient_ref
            &&& b.subrange(n + 1, n + 17) == be16(amount)
        }),
        leaf_digest(recipient_ref, amount) == sha256_digest(
            seq![0u8] + recipient_ref + be16(amount),
        ),
{
    let b = leaf_bytes(recipient_ref, amount);
    let n = recipient_ref.len() as int;
    assert(b.subrange(1, n + 1) =~= recipient_ref);
    assert(b.subrange(n + 1, n + 17) =~= be16(amount));
}

/// Two leaves' hashed bytes are equal only for equal recipient references
/// of the same length and equal amounts.
pub proof fn lemma_leaf_bytes_injective(r1: Seq<u8>, a1: i128, r2: Seq<u8>, a2: i128)
    requires
        r1.len() == r2.len(),
        leaf_bytes(r1, a1) == leaf_bytes(r2, a2),
    ensures
        r1 == r2,
        a1 == a2,
{
    lemma_leaf_layout(r1, a1);
    lemma_leaf_layout(r2, a2);
    lemma_be16_value(a1);
    lemma_be16_value(a2);
    let x = a1;
    let y = a2;
    assert((x as u128) == (y as u128) ==> x == y) by (bit_vector);
}

/// An internal node hashes the byte 0x01, then the first child byte for
/// byte, then the second.
pub proof fn lemma_node_layout(lo: Seq<u8>, hi: Seq<u8>)
    ensures
        ({
            let b = node_bytes(lo, hi);
            let n = lo.len() as int;
            &&& b.len() == n + hi.len() + 1
            &&& b[0] == 1u8
            &&& b.subrange(1, n + 1) == lo
            &&& b.subrange(n + 1, b.len() as int) == hi
        }),
{
    let b = node_bytes(lo, hi);
    let n = lo.len() as int;
    assert(b.subrange(1, n + 1) =~= lo);
    assert(b.subrange(n + 1, b.len() as int) =~= hi);
}

/// A node's hash is that of 0x01, the lower child and the higher child, the
/// children taken as they are and ordered by their bytes.
pub proof fn lemma_node_digest_of_sorted_children(a: Seq<u8>, b: Seq<u8>)
    ensures
        lex_le(a, b) ==> node_digest(a, b) == sha256_digest(seq![1u8] + a + b),
        lex_le(b, a) ==> node_digest(a, b) == sha256_digest(seq![1u8] + b + a),
{
    lemma_node_symmetric(a, b);
    if lex_le(a, b) && lex_le(b, a) {
        lemma_lex_antisymmetric(a, b);
    }
}

/// The big-endian value of a byte string.
pub open spec fn be_value(s: Seq<u8>) -> int
    decreases s.len(),
{
    if s.len() == 0 {
        0
    } else {
        be_value(s.drop_last()) * 256 + s.last()
    }
}

/// One step of reading bytes from the top: the value above bit `s`, shifted
/// one byte further, times 256, plus the next byte.
proof fn lemma_shift_byte(u: u128, s: u32)
    requires
        s <= 112,
    ensures
        ((u >> ((s + 8) as u32)) as int) * 256 + (((u >> s) & 0xffu128) as u8) as int == (u
            >> s) as int,
{
    let t = (s + 8) as u32;
    assert(u >> t == (u >> s) >> 8u32) by (bit_vector)
        requires
            t == s + 8,
            s <= 112,
    ;
    let v = u >> s;
    assert(((v >> 8u32) * 256u128) + (v & 0xffu128) == v) by (bit_vector);
    assert((v & 0xffu128) < 256u128) by (bit_vector);
    assert((v >> 8u32) * 256u128 <= v) by (bit_vector);
}

/// The first `k` bytes of an amount's encoding, read big-endian, are its
/// bits above bit `8 * (16 - k)`.
proof fn lemma_be16_prefix(x: i128, k: int)
    requires
        1 <= k <= 16,
    ensures
        be_value(be16(x).take(k)) == ((x as u128) >> ((8 * (16 - k)) as u32)) as int,
    decreases k,
{
    let u = x as u128;
    let e = be16(x);
    if k == 1 {
        assert(e.take(1).drop_last() =~= Seq::<u8>::empty());
        assert((u >> 120u32) < 256u128 && ((u >> 120u32) & 0xffu128) == (u >> 120u32))
            by (bit_vector);
        assert(e.take(1).last() == e[0]);
        assert(e[0] == (((u >> 120u32) & 0xffu128) as u8));
        assert(be_value(e.take(1)) == be_value(e.take(1).drop_last()) * 256 + e[0]);
    } else {
        lemma_be16_prefix(x, k - 1);
        let s = (8 * (16 - k)) as u32;
        assert(e.take(k).drop_last() =~= e.take(k - 1));
        assert(e.take(k).last() == (((u >> s) & 0xffu128) as u8));
        lemma_shift_byte(u, s);
        assert((s + 8) as u32 == (8 * (16 - (k - 1))) as u32);
    }
}

/// The 16 bytes of an amount are its two's-complement bits, most
/// significant first: read big-endian they give the amount as a `u128`.
pub proof fn lemma_be16_value(x: i128)
    ensures
        be16(x).len() == 16,
        be_value(be16(x)) == (x as u128) as int,
{
    let u = x as u128;
    lemma_be16_prefix(x, 16);
    assert(be16(x).take(16) =~= be16(x));
    assert(u >> 0u32 == u) by (bit_vector);
}

/// Children are ordered by raw byte value: of two equal-length byte
/// strings, the first comes first when they are equal or when, at the first
/// byte where they differ, its byte is the smaller.
pub proof fn lemma_lex_le_first_difference(a: Seq<u8>, b: Seq<u8>)
    requires
        a.len() == b.len(),
    ensures
        lex_le(a, b) <==> (a == b || exists|k: int|
            0 <= k < a.len() && a.take(k) == b.take(k) && #[trigger] a[k] < b[k]),
    decreases a.len(),
{
    if a.len() == 0 {
        assert(a =~= b);
    } else if a[0] != b[0] {
        if a[0] < b[0] {
            assert(a.take(0) =~= b.take(0));
            assert(a[0] < b[0]);
        } else {
            assert(a != b);
            assert forall|k: int| 0 <= k < a.len() && a.take(k) == b.take(k) implies !(a[k] < b[k]) by {
                if k > 0 {
                    assert(a.take(k)[0] == b.take(k)[0]);
                }
            }
        }
    } else {
        let a1 = a.drop_first();
        let b1 = b.drop_first();
        lemma_lex_le_first_difference(a1, b1);
        if lex_le(a, b) {
            if a1 == b1 {
                assert forall|j: int| 0 <= j < a.len() implies #[trigger] a[j] == b[j] by {
                    if j > 0 {
                        assert(a[j] == a1[j - 1] && b[j] == b1[j - 1]);
                    }
                }
                assert(a =~= b);
            } else {
                let k = choose|k: int| 0 <= k < a1.len() && a1.take(k) == b1.take(k) && #[trigger] a1[k] < b1[k];
                assert(a.take(k + 1) =~= b.take(k + 1)) by {
                    assert forall|j: int| 0 <= j < k + 1 implies #[trigger] a.take(k + 1)[j] == b.take(k + 1)[j] by {
                        if j > 0 {
                            assert(a1.take(k)[j - 1] == b1.take(k)[j - 1]);
                        }
                    }
                }
                assert(a[k + 1] < b[k + 1]);
            }
        } else {
            assert(a != b) by {
                if a == b {
                    assert(a1 =~= b1);
                }
            }
            assert forall|k: int| 0 <= k < a.len() && a.take(k) == b.take(k) implies !(a[k] < b[k]) by {
                if k > 0 && a[k] < b[k] {
                    assert(a1.take(k - 1) =~= b1.take(k - 1)) by {
                        assert forall|j: int| 0 <= j < k - 1 implies #[trigger] a1.take(k - 1)[j] == b1.take(k - 1)[j] by {
                            assert(a.take(k)[j + 1] == b.take(k)[j + 1]);
                        }
                    }
                    assert(a1[k - 1] < b1[k - 1]);
                }
            }
        }
    }
}

} // verus!
