//! Verification of sorted-pair Merkle inclusion proofs.
//!
//! A proof is the list of sibling digests on the path from a leaf up to the
//! root. Each step hashes the running digest with the next sibling, smaller
//! one first, so a proof carries no left/right marks.

use crate::digest::{
    digest_eq, lemma_lex_le_antisymmetric, lemma_lex_le_total, lex_le, sorted_pair,
};
use crate::hasher::{hash_pair, pair_digest};
use vstd::prelude::*;

verus! {

/// One step up the tree: the digest of `acc` and `sibling` as a pair in
/// canonical order, `acc` first where it comes before `sibling` or equals it.
pub open spec fn combined(acc: Seq<u8>, sibling: Seq<u8>) -> Seq<u8> {
    if lex_le(acc, sibling) {
        pair_digest(acc, sibling)
    } else {
        pair_digest(sibling, acc)
    }
}

/// The root reached from `leaf` by combining it with the siblings of `proof`
/// one after another, in the order of the list.
pub open spec fn root_from(leaf: Seq<u8>, proof: Seq<Seq<u8>>) -> Seq<u8>
    decreases proof.len(),
{
    if proof.len() == 0 {
        leaf
    } else {
        combined(root_from(leaf, proof.drop_last()), proof.last())
    }
}

/// `proof` leads from `leaf` to `root`.
pub open spec fn verifies(proof: Seq<Seq<u8>>, root: Seq<u8>, leaf: Seq<u8>) -> bool {
    root_from(leaf, proof) == root
}

/// The siblings of a proof as byte strings.
pub open spec fn digests(proof: Seq<[u8; 32]>) -> Seq<Seq<u8>> {
    Seq::new(proof.len(), |i: int| proof[i]@)
}

/// Combines the running digest with one sibling.
pub fn combine(acc: &[u8; 32], sibling: &[u8; 32]) -> (digest: [u8; 32])
    ensures
        digest@ == combined(acc@, sibling@),
{
    let (first, second) = sorted_pair(*acc, *sibling);
    hash_pair(&first, &second)
}

/// Recomputes the root that `proof` leads to from `leaf`.
pub fn compute_root(proof: &Vec<[u8; 32]>, leaf: [u8; 32]) -> (root: [u8; 32])
    ensures
        root@ == root_from(leaf@, digests(proof@)),
{
    let mut acc = leaf;
    let mut i: usize = 0;
    assert(digests(proof@).take(0) =~= Seq::<Seq<u8>>::empty());
    while i < proof.len()
        invariant
            i <= proof.len(),
            acc@ == root_from(leaf@, digests(proof@).take(i as int)),
        decreases proof.len() - i,
    {
        proof {
            let path = digests(proof@);
            assert(path.take(i + 1) =~= path.take(i as int).push(proof@[i as int]@));
            lemma_root_from_push(leaf@, path.take(i as int), proof@[i as int]@);
        }
        acc = combine(&acc, &proof[i]);
        i += 1;
    }
    assert(digests(proof@).take(i as int) =~= digests(proof@));
    acc
}

/// Whether `proof` leads from `leaf` to `root`. An empty proof does so only
/// where the leaf is the root itself; a proof that does not fit is simply
/// not accepted.
pub fn verify_proof(proof: Vec<[u8; 32]>, root: [u8; 32], leaf: [u8; 32]) -> (accepted: bool)
    ensures
        accepted == verifies(digests(proof@), root@, leaf@),
{
    let computed = compute_root(&proof, leaf);
    digest_eq(&computed, &root)
}

/// A proof is accepted against the root that it leads to: whatever the leaf
/// and the siblings, the root computed from them verifies.
pub proof fn lemma_computed_root_verifies(leaf: Seq<u8>, proof: Seq<Seq<u8>>)
    ensures
        verifies(proof, root_from(leaf, proof), leaf),
{
}

/// The empty proof is accepted exactly where the root is the leaf.
pub proof fn lemma_empty_proof(root: Seq<u8>, leaf: Seq<u8>)
    ensures
        verifies(Seq::<Seq<u8>>::empty(), root, leaf) <==> root == leaf,
{
}

/// A longer proof continues a shorter one: the root of `proof` with one more
/// sibling is the root of `proof` combined with that sibling.
pub proof fn lemma_root_from_push(leaf: Seq<u8>, proof: Seq<Seq<u8>>, sibling: Seq<u8>)
    ensures
        root_from(leaf, proof.push(sibling)) == combined(root_from(leaf, proof), sibling),
{
    assert(proof.push(sibling).drop_last() =~= proof);
}

/// Combining does not depend on which of the two digests is the running one:
/// the pair is put in canonical order before it is hashed.
pub proof fn lemma_combined_commutative(a: Seq<u8>, b: Seq<u8>)
    requires
        a.len() == b.len(),
    ensures
        combined(a, b) == combined(b, a),
{
    lemma_lex_le_total(a, b);
    if lex_le(a, b) && lex_le(b, a) {
        lemma_lex_le_antisymmetric(a, b);
    }
}

} // verus!
