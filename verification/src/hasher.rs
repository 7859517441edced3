//! Keccak-256 hashing of byte strings, of digest pairs and of identities.
//!
//! The hash itself is computed by `anchor_lang`'s Solana program library.
//! Verus does not look inside it: contracts name its result `keccak256` and
//! say nothing of its value on any given input.

use anchor_lang::solana_program::keccak;
use anchor_lang::solana_program::pubkey::Pubkey;
use vstd::prelude::*;

verus! {

/// The Keccak-256 digest of a byte string, as `solana_program::keccak::hash`
/// computes it.
pub uninterp spec fn keccak256(data: Seq<u8>) -> Seq<u8>;

/// The bytes of the base-58 text that `Pubkey`'s `to_string` gives for a
/// 32-byte key.
pub uninterp spec fn base58_text(key: Seq<u8>) -> Seq<u8>;

/// The digest of the pair `first`, `second`: the hash of the 64 bytes of
/// `first` followed by `second`, with nothing between or before them.
pub open spec fn pair_digest(first: Seq<u8>, second: Seq<u8>) -> Seq<u8> {
    keccak256(first + second)
}

/// The leaf that stands for an identity in the allowlist tree: the hash of
/// the identity's base-58 text.
pub open spec fn identity_leaf(identity: Seq<u8>) -> Seq<u8> {
    keccak256(base58_text(identity))
}

/// Calls `solana_program::keccak::hash` and takes the 32 bytes out of the
/// `Hash` it returns. Assumed: the result is the Keccak-256 digest of `data`,
/// a function of the bytes of `data` alone.
#[verifier::external_body]
fn keccak_hash(data: &[u8]) -> (digest: [u8; 32])
    ensures
        digest@ == keccak256(data@),
{
    keccak::hash(data).to_bytes()
}

/// Calls `solana_program::keccak::hashv` on the two parts `first`, `second`.
/// Assumed: `hashv` feeds its parts to one hasher in the order given, so the
/// result is the Keccak-256 digest of `first` followed by `second`.
#[verifier::external_body]
fn keccak_hashv_pair(first: &[u8; 32], second: &[u8; 32]) -> (digest: [u8; 32])
    ensures
        digest@ == keccak256(first@ + second@),
{
    keccak::hashv(&[first, second]).to_bytes()
}

/// Calls `to_string` on the `Pubkey` made of the 32 bytes of `key`, and hands
/// back the text's bytes. Assumed: the text is a function of the key's bytes
/// alone (their base-58 encoding).
#[verifier::external_body]
fn pubkey_text(key: &[u8; 32]) -> (text: Vec<u8>)
    ensures
        text@ == base58_text(key@),
{
    Pubkey::new_from_array(*key).to_string().into_bytes()
}

/// Hashes a byte string.
pub fn hash(data: &[u8]) -> (digest: [u8; 32])
    ensures
        digest@ == keccak256(data@),
{
    keccak_hash(data)
}

/// Hashes the concatenation of `first` then `second`, in that byte order.
pub fn hash_pair(first: &[u8; 32], second: &[u8; 32]) -> (digest: [u8; 32])
    ensures
        digest@ == pair_digest(first@, second@),
{
    keccak_hashv_pair(first, second)
}

/// Derives the leaf of an identity.
pub fn leaf_of(identity: &[u8; 32]) -> (leaf: [u8; 32])
    ensures
        leaf@ == identity_leaf(identity@),
{
    let text = pubkey_text(identity);
    keccak_hash(text.as_slice())
}

/// The two orders of a pair of different digests are different byte strings:
/// `hash_pair(a, b)` and `hash_pair(b, a)` hash different inputs.
pub proof fn lemma_pair_input_order_sensitive(a: Seq<u8>, b: Seq<u8>)
    requires
        a.len() == b.len(),
        a != b,
    ensures
        a + b != b + a,
{
    assert(!(a =~= b));
    let k = choose|k: int| 0 <= k < a.len() && a[k] != b[k];
    assert((a + b)[k] == a[k]);
    assert((b + a)[k] == b[k]);
}

} // verus!
