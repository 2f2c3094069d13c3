//! The Soroban host items that the library uses: the environment, addresses
//! and the host's SHA-256.

use soroban_sdk::{Address, Bytes, Env};
use vstd::prelude::*;

verus! {

/// The Soroban environment, carried through to the host's hash function.
#[verifier::external_type_specification]
#[verifier::external_body]
pub struct ExEnv(Env);

/// A Soroban account or contract address. The library only carries it.
#[verifier::external_type_specification]
#[verifier::external_body]
pub struct ExAddress(Address);

/// SHA-256 of a byte string, as the Soroban host computes it.
pub uninterp spec fn sha256_digest(data: Seq<u8>) -> Seq<u8>;

/// Calls `soroban_sdk::crypto::Crypto::sha256` on the bytes of `data`.
/// Claimed: the 32-byte digest is `sha256_digest` of the input bytes, and it
/// does not depend on the environment. Not stated: the host traps when the
/// invocation's metering budget is exhausted.
#[verifier::external_body]
pub(crate) fn sha256(env: &Env, data: &Vec<u8>) -> (digest: [u8; 32])
    ensures
        digest@ == sha256_digest(data@),
{
    env.crypto().sha256(&Bytes::from_slice(env, data.as_slice())).to_array()
}

/// Calls `Clone::clone` on a `soroban_sdk::Address` (a derived clone of its
/// environment handle and host object). Claimed: the copy is the same address.
#[verifier::external_body]
pub(crate) fn copy_address(a: &Address) -> (c: Address)
    ensures
        c == *a,
{
    a.clone()
}

} // verus!
