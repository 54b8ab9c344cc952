//! The order of metadata keys.
//!
//! Keys are strings, ordered the way std orders `str`: lexicographically by
//! their UTF-8 bytes. That order is stated here over the byte encoding of a
//! key's characters and proved to be a strict total order on keys, which is
//! what lets [`Metadata`](crate::Metadata) keep its entries sorted and find
//! them again by binary search.

use vstd::prelude::*;
use vstd::utf8::{encode_utf8, encode_utf8_decode_utf8};

verus! {

/// Lexicographic `<` on byte sequences: the first differing byte decides, and
/// a proper prefix comes first.
pub open spec fn bytes_lt(a: Seq<u8>, b: Seq<u8>) -> bool
    decreases a.len(),
{
    if a.len() == 0 {
        b.len() > 0
    } else if b.len() == 0 {
        false
    } else if a[0] != b[0] {
        a[0] < b[0]
    } else {
        bytes_lt(a.drop_first(), b.drop_first())
    }
}

/// The order of keys: `a` comes before `b` when its UTF-8 bytes are
/// lexicographically smaller.
pub open spec fn key_lt(a: Seq<char>, b: Seq<char>) -> bool {
    bytes_lt(encode_utf8(a), encode_utf8(b))
}

/// `bytes_lt` is a strict total order on byte sequences.
pub proof fn lemma_bytes_lt_total(a: Seq<u8>, b: Seq<u8>)
    ensures
        !bytes_lt(a, a),
        bytes_lt(a, b) ==> !bytes_lt(b, a),
        a != b ==> bytes_lt(a, b) || bytes_lt(b, a),
    decreases a.len(),
{
    if a.len() > 0 && b.len() > 0 {
        lemma_bytes_lt_total(a.drop_first(), b.drop_first());
        if a != b && a[0] == b[0] {
            assert(a.drop_first() != b.drop_first()) by {
                if a.drop_first() == b.drop_first() {
                    assert(a =~= seq![a[0]] + a.drop_first());
                    assert(b =~= seq![b[0]] + b.drop_first());
                }
            }
        }
    } else if a.len() > 0 {
    } else if b.len() > 0 {
    } else {
        assert(a =~= b);
    }
    if a.len() > 0 {
        lemma_bytes_lt_total(a.drop_first(), a.drop_first());
    }
}

/// `bytes_lt` is transitive.
pub proof fn lemma_bytes_lt_transitive(a: Seq<u8>, b: Seq<u8>, c: Seq<u8>)
    requires
        bytes_lt(a, b),
        bytes_lt(b, c),
    ensures
        bytes_lt(a, c),
    decreases a.len(),
{
    if a.len() > 0 && b.len() > 0 && c.len() > 0 && a[0] == b[0] && b[0] == c[0] {
        lemma_bytes_lt_transitive(a.drop_first(), b.drop_first(), c.drop_first());
    }
}

/// The order of keys is a strict total order: irreflexive, asymmetric,
/// transitive, and any two different keys are ordered one way or the other.
pub proof fn lemma_key_order(a: Seq<char>, b: Seq<char>, c: Seq<char>)
    ensures
        !key_lt(a, a),
        key_lt(a, b) ==> !key_lt(b, a),
        key_lt(a, b) && key_lt(b, c) ==> key_lt(a, c),
        a != b ==> key_lt(a, b) || key_lt(b, a),
{
    lemma_bytes_lt_total(encode_utf8(a), encode_utf8(b));
    lemma_bytes_lt_total(encode_utf8(a), encode_utf8(a));
    if key_lt(a, b) && key_lt(b, c) {
        lemma_bytes_lt_transitive(encode_utf8(a), encode_utf8(b), encode_utf8(c));
    }
    if a != b {
        encode_utf8_decode_utf8(a);
        encode_utf8_decode_utf8(b);
    }
}

/// The outcome of comparing two keys.
pub enum KeyOrder {
    Less,
    Equal,
    Greater,
}

/// Compares two byte sequences lexicographically.
fn compare_bytes(a: &[u8], b: &[u8]) -> (r: KeyOrder)
    ensures
        r is Less <==> bytes_lt(a@, b@),
        r is Equal <==> a@ == b@,
        r is Greater <==> bytes_lt(b@, a@),
{
    proof {
        lemma_bytes_lt_total(a@, b@);
    }
    let n = a.len();
    let m = b.len();
    let mut i: usize = 0;
    assert(a@.skip(0) =~= a@);
    assert(b@.skip(0) =~= b@);
    while i < n && i < m
        invariant
            n == a@.len(),
            m == b@.len(),
            i <= n,
            i <= m,
            a@.take(i as int) =~= b@.take(i as int),
            bytes_lt(a@, b@) == bytes_lt(a@.skip(i as int), b@.skip(i as int)),
            bytes_lt(b@, a@) == bytes_lt(b@.skip(i as int), a@.skip(i as int)),
        decreases n - i,
    {
        if a[i] < b[i] {
            return KeyOrder::Less;
        }
        if b[i] < a[i] {
            return KeyOrder::Greater;
        }
        assert(a@.skip(i as int).drop_first() =~= a@.skip(i + 1));
        assert(b@.skip(i as int).drop_first() =~= b@.skip(i + 1));
        assert(a@.take(i + 1) =~= a@.take(i as int).push(a@[i as int]));
        assert(b@.take(i + 1) =~= b@.take(i as int).push(b@[i as int]));
        i = i + 1;
    }
    if i < m {
        KeyOrder::Less
    } else if i < n {
        KeyOrder::Greater
    } else {
        assert(a@ =~= a@.take(i as int));
        assert(b@ =~= b@.take(i as int));
        KeyOrder::Equal
    }
}

/// Compares two keys in key order.
pub fn compare_keys(a: &str, b: &str) -> (r: KeyOrder)
    ensures
        r is Less <==> key_lt(a@, b@),
        r is Equal <==> a@ == b@,
        r is Greater <==> key_lt(b@, a@),
{
    let r = compare_bytes(a.as_bytes(), b.as_bytes());
    proof {
        lemma_key_order(a@, b@, b@);
        if encode_utf8(a@) == encode_utf8(b@) {
            encode_utf8_decode_utf8(a@);
            encode_utf8_decode_utf8(b@);
        }
    }
    r
}

/// `bytes_lt` is lexicographic order: `a` comes before `b` exactly when `a`
/// is a proper prefix of `b`, or at the first position where they differ
/// `a` has the smaller byte.
pub proof fn lemma_bytes_lt_lexicographic(a: Seq<u8>, b: Seq<u8>)
    ensures
        bytes_lt(a, b) <==> ((a.len() < b.len() && a == b.take(a.len() as int)) || exists|i: int|
            0 <= i < a.len() && i < b.len() && a.take(i) == b.take(i) && #[trigger] a[i] < b[i]),
    decreases a.len(),
{
    if a.len() == 0 {
        assert(a =~= b.take(0));
    } else if b.len() == 0 {
    } else {
        let (ra, rb) = (a.drop_first(), b.drop_first());
        lemma_bytes_lt_lexicographic(ra, rb);
        if a[0] != b[0] {
            assert(a.take(0) =~= b.take(0));
            if a[0] < b[0] {
                assert(a.take(0) == b.take(0) && a[0] < b[0]);
            } else {
                assert forall|i: int|
                    0 <= i < a.len() && i < b.len() && a.take(i) == b.take(i) implies !(#[trigger] a[i]
                    < b[i]) by {
                    if i > 0 {
                        assert(a.take(i)[0] == b.take(i)[0]);
                    }
                }
                if a.len() < b.len() && a == b.take(a.len() as int) {
                    assert(a[0] == b.take(a.len() as int)[0]);
                }
            }
        } else {
            if ra.len() < rb.len() && ra == rb.take(ra.len() as int) {
                assert forall|j: int| 0 <= j < a.len() implies #[trigger] a[j] == b.take(
                    a.len() as int,
                )[j] by {
                    if j > 0 {
                        assert(ra[j - 1] == rb.take(ra.len() as int)[j - 1]);
                    }
                }
                assert(a =~= b.take(a.len() as int));
            }
            if a.len() < b.len() && a == b.take(a.len() as int) {
                assert forall|j: int| 0 <= j < ra.len() implies #[trigger] ra[j] == rb.take(
                    ra.len() as int,
                )[j] by {
                    assert(a[j + 1] == b.take(a.len() as int)[j + 1]);
                }
                assert(ra =~= rb.take(ra.len() as int));
            }
            if exists|i: int|
                0 <= i < ra.len() && i < rb.len() && ra.take(i) == rb.take(i) && #[trigger] ra[i]
                    < rb[i] {
                let i = choose|i: int|
                    0 <= i < ra.len() && i < rb.len() && ra.take(i) == rb.take(i) && #[trigger] ra[i]
                        < rb[i];
                assert(a.take(i + 1) =~= b.take(i + 1)) by {
                    assert forall|j: int| 0 <= j < i + 1 implies #[trigger] a.take(i + 1)[j] == b.take(i + 1)[j] by {
                        if j > 0 {
                            assert(ra.take(i)[j - 1] == rb.take(i)[j - 1]);
                        }
                    }
                }
                assert(a[i + 1] < b[i + 1]);
            }
            if exists|i: int|
                0 <= i < a.len() && i < b.len() && a.take(i) == b.take(i) && #[trigger] a[i] < b[i] {
                let i = choose|i: int|
                    0 <= i < a.len() && i < b.len() && a.take(i) == b.take(i) && #[trigger] a[i] < b[i];
                assert(i > 0);
                assert(ra.take(i - 1) =~= rb.take(i - 1)) by {
                    assert forall|j: int| 0 <= j < i - 1 implies #[trigger] ra.take(i - 1)[j] == rb.take(i - 1)[j] by {
                        assert(a.take(i)[j + 1] == b.take(i)[j + 1]);
                    }
                }
                assert(ra[i - 1] < rb[i - 1]);
            }
        }
    }
}

} // verus!
