//! Digests as byte strings, and their byte-wise order.
//!
//! A digest is a `[u8; 32]`. Contracts speak of its view, a `Seq<u8>` of
//! length 32, and order two digests lexicographically by unsigned bytes.

use vstd::prelude::*;

verus! {

/// Number of bytes in a digest.
pub const DIGEST_BYTES: usize = 32;

/// `i` is the first position at which `a` and `b` hold different bytes.
pub open spec fn first_difference(a: Seq<u8>, b: Seq<u8>, i: int) -> bool {
    &&& 0 <= i < a.len()
    &&& i < b.len()
    &&& a[i] != b[i]
    &&& forall|j: int| 0 <= j < i ==> a[j] == b[j]
}

/// `a` comes strictly before `b`: at the first position where they differ,
/// `a` holds the smaller byte.
pub open spec fn lex_lt(a: Seq<u8>, b: Seq<u8>) -> bool {
    exists|i: int| first_difference(a, b, i) && a[i] < b[i]
}

/// `a` comes before `b` or equals it, for byte strings of one length.
pub open spec fn lex_le(a: Seq<u8>, b: Seq<u8>) -> bool
    recommends
        a.len() == b.len(),
{
    a == b || lex_lt(a, b)
}

/// Two byte strings differ first at no more than one position.
pub proof fn lemma_first_difference_unique(a: Seq<u8>, b: Seq<u8>, i: int, j: int)
    requires
        first_difference(a, b, i),
        first_difference(a, b, j),
    ensures
        i == j,
{
}

/// Two different byte strings of one length differ first somewhere.
pub proof fn lemma_first_difference_exists(a: Seq<u8>, b: Seq<u8>) -> (i: int)
    requires
        a.len() == b.len(),
        a != b,
    ensures
        first_difference(a, b, i),
{
    assert(!(a =~= b));
    let k = choose|k: int| 0 <= k < a.len() && a[k] != b[k];
    least_difference(a, b, k)
}

/// Walks down from a position where `a` and `b` differ to the first such one.
proof fn least_difference(a: Seq<u8>, b: Seq<u8>, k: int) -> (i: int)
    requires
        a.len() == b.len(),
        0 <= k < a.len(),
        a[k] != b[k],
    ensures
        first_difference(a, b, i),
        i <= k,
    decreases k,
{
    if exists|j: int| 0 <= j < k && a[j] != b[j] {
        let j = choose|j: int| 0 <= j < k && a[j] != b[j];
        least_difference(a, b, j)
    } else {
        k
    }
}

/// The order is total: of two byte strings of one length, one comes before
/// the other or equals it.
pub proof fn lemma_lex_le_total(a: Seq<u8>, b: Seq<u8>)
    requires
        a.len() == b.len(),
    ensures
        lex_le(a, b) || lex_le(b, a),
{
    if a != b {
        let i = lemma_first_difference_exists(a, b);
        assert(first_difference(b, a, i));
    }
}

/// The order is antisymmetric: two byte strings that come before each other
/// are equal.
pub proof fn lemma_lex_le_antisymmetric(a: Seq<u8>, b: Seq<u8>)
    requires
        lex_le(a, b),
        lex_le(b, a),
    ensures
        a == b,
{
    if a != b {
        let i = choose|i: int| first_difference(a, b, i) && a[i] < b[i];
        let j = choose|j: int| first_difference(b, a, j) && b[j] < a[j];
        assert(first_difference(a, b, j));
        lemma_first_difference_unique(a, b, i, j);
    }
}

/// The order is transitive.
pub proof fn lemma_lex_le_transitive(a: Seq<u8>, b: Seq<u8>, c: Seq<u8>)
    requires
        a.len() == b.len(),
        b.len() == c.len(),
        lex_le(a, b),
        lex_le(b, c),
    ensures
        lex_le(a, c),
{
    if a != b && b != c {
        let i = choose|i: int| first_difference(a, b, i) && a[i] < b[i];
        let j = choose|j: int| first_difference(b, c, j) && b[j] < c[j];
        let k = if i <= j { i } else { j };
        assert(first_difference(a, c, k) && a[k] < c[k]);
    }
}

/// Whether two digests hold the same bytes.
pub fn digest_eq(a: &[u8; 32], b: &[u8; 32]) -> (same: bool)
    ensures
        same == (a@ == b@),
        same == (*a == *b),
{
    let mut i: usize = 0;
    while i < DIGEST_BYTES
        invariant
            i <= DIGEST_BYTES,
            forall|j: int| 0 <= j < i ==> a@[j] == b@[j],
        decreases DIGEST_BYTES - i,
    {
        if a[i] != b[i] {
            return false;
        }
        i += 1;
    }
    assert(a@ =~= b@);
    assert(*a =~= *b);
    true
}

/// Whether digest `a` comes before digest `b` or equals it, comparing
/// unsigned bytes from the front.
pub fn digest_le(a: &[u8; 32], b: &[u8; 32]) -> (before: bool)
    ensures
        before == lex_le(a@, b@),
{
    let mut i: usize = 0;
    while i < DIGEST_BYTES
        invariant
            i <= DIGEST_BYTES,
            forall|j: int| 0 <= j < i ==> a@[j] == b@[j],
        decreases DIGEST_BYTES - i,
    {
        if a[i] != b[i] {
            proof {
                let d = i as int;
                assert(first_difference(a@, b@, d));
                if lex_lt(a@, b@) {
                    let w = choose|w: int| first_difference(a@, b@, w) && a@[w] < b@[w];
                    lemma_first_difference_unique(a@, b@, d, w);
                }
            }
            return a[i] < b[i];
        }
        i += 1;
    }
    assert(a@ =~= b@);
    true
}

/// The two digests in canonical order: the one that comes first in byte-wise
/// order stands first; `a` stands first where they are equal.
pub fn sorted_pair(a: [u8; 32], b: [u8; 32]) -> (pair: ([u8; 32], [u8; 32]))
    ensures
        pair == if lex_le(a@, b@) { (a, b) } else { (b, a) },
{
    if digest_le(&a, &b) {
        (a, b)
    } else {
        (b, a)
    }
}

} // verus!
