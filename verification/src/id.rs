//! Stable identifiers for stored vectors.
//!
//! A [`VectorId`] is either a compact 64-bit integer or an opaque byte key, so
//! a caller can use whichever id space their data already has (a row id, a
//! content hash, a UUID's bytes) without the iqdb spine imposing one.

use vstd::prelude::*;
use vstd::std_specs::cmp::PartialEqSpecImpl;
use vstd::std_specs::convert::{FromSpecImpl, TryFromSpecImpl};
use vstd::string::*;

use crate::error::IqdbError;
use crate::render::{
    decimal, decimal_value, hex, is_decimal_digit, is_lower_hex_digit, lemma_decimal_reads_back,
    lemma_hex_reads_back, lemma_hex_shape, push_decimal, push_hex, unhex,
};

verus! {

/// A stable identifier for a stored vector.
///
/// Either a compact [`U64`](VectorId::U64) integer id or an opaque
/// [`Bytes`](VectorId::Bytes) key. Build a `U64` id with
/// [`From<u64>`](VectorId::from); build a `Bytes` id with
/// [`TryFrom<Vec<u8>>`](VectorId::try_from), which rejects an empty key.
#[derive(Debug, Eq, Hash)]
pub enum VectorId {
    /// A compact 64-bit integer id (for example, a row id).
    U64(u64),
    /// An opaque, non-empty byte key (for example, a content hash or a UUID's
    /// raw bytes).
    Bytes(Box<[u8]>),
}

/// The reason carried by the error for an empty byte key.
pub open spec fn empty_key_reason() -> Seq<char> {
    "VectorId::Bytes key must not be empty"@
}

/// What building a `Bytes` id from `bytes` gives: the key itself, or
/// `InvalidConfig` with [`empty_key_reason`] when `bytes` is empty.
pub open spec fn bytes_id_result(bytes: Seq<u8>, r: core::result::Result<VectorId, IqdbError>) -> bool {
    if bytes.len() == 0 {
        r matches Err(IqdbError::InvalidConfig { reason }) && reason@ == empty_key_reason()
    } else {
        r matches Ok(VectorId::Bytes(b)) && b@ == bytes
    }
}

impl VectorId {
    /// Two ids are equal when they are the same kind and carry the same
    /// number or the same bytes.
    pub open spec fn same_as(self, other: VectorId) -> bool {
        match (self, other) {
            (VectorId::U64(a), VectorId::U64(b)) => a == b,
            (VectorId::Bytes(a), VectorId::Bytes(b)) => a@ == b@,
            _ => false,
        }
    }

    /// The operator-facing text of the id: the decimal integer for `U64`,
    /// lowercase hex with no prefix and no separators for `Bytes`.
    pub open spec fn display_text(self) -> Seq<char> {
        match self {
            VectorId::U64(n) => decimal(n as nat),
            VectorId::Bytes(b) => hex(b@),
        }
    }

    /// Renders the id for operator-facing logs and error messages: `U64` as
    /// its decimal integer, `Bytes` as lowercase hex, two characters per
    /// byte, with no prefix and no separators.
    pub fn to_string(&self) -> (s: String)
        ensures
            s@ == self.display_text(),
    {
        let mut s = String::new();
        match self {
            VectorId::U64(n) => push_decimal(&mut s, *n),
            VectorId::Bytes(b) => push_hex(&mut s, b),
        }
        assert(s@ =~= self.display_text());
        s
    }
}

/// Moves the bytes of a vector into a boxed slice.
///
/// Trusted: calls `Vec::into_boxed_slice`, which std documents as keeping the
/// elements (dropping only excess capacity).
#[verifier::external_body]
fn into_boxed_bytes(v: Vec<u8>) -> (b: Box<[u8]>)
    ensures
        b@ == v@,
{
    v.into_boxed_slice()
}

/// Compares two byte slices element by element.
fn bytes_equal(a: &[u8], b: &[u8]) -> (r: bool)
    ensures
        r == (a@ == b@),
{
    if a.len() != b.len() {
        return false;
    }
    let n = a.len();
    let mut i: usize = 0;
    while i < n
        invariant
            n == a@.len(),
            n == b@.len(),
            i <= n,
            forall|j: int| 0 <= j < i ==> a@[j] == b@[j],
        decreases n - i,
    {
        if a[i] != b[i] {
            return false;
        }
        i = i + 1;
    }
    assert(a@ =~= b@);
    true
}

impl PartialEq for VectorId {
    fn eq(&self, other: &Self) -> (r: bool) {
        match (self, other) {
            (VectorId::U64(a), VectorId::U64(b)) => *a == *b,
            (VectorId::Bytes(a), VectorId::Bytes(b)) => bytes_equal(a, b),
            _ => false,
        }
    }
}

impl PartialEqSpecImpl for VectorId {
    open spec fn obeys_eq_spec() -> bool {
        true
    }

    open spec fn eq_spec(&self, other: &Self) -> bool {
        self.same_as(*other)
    }
}

impl Clone for VectorId {
    fn clone(&self) -> (c: Self)
        ensures
            c.same_as(*self),
    {
        match self {
            VectorId::U64(n) => VectorId::U64(*n),
            VectorId::Bytes(b) => VectorId::Bytes(into_boxed_bytes(vstd::slice::slice_to_vec(b))),
        }
    }
}

impl From<u64> for VectorId {
    fn from(value: u64) -> (id: Self) {
        VectorId::U64(value)
    }
}

impl FromSpecImpl<u64> for VectorId {
    open spec fn obeys_from_spec() -> bool {
        true
    }

    open spec fn from_spec(v: u64) -> Self {
        VectorId::U64(v)
    }
}

impl TryFrom<Vec<u8>> for VectorId {
    type Error = IqdbError;

    /// Builds a [`Bytes`](VectorId::Bytes) id, rejecting an empty key with
    /// [`IqdbError::InvalidConfig`] (a malformed identifier is a
    /// configuration shape problem, not a malformed vector).
    fn try_from(bytes: Vec<u8>) -> (r: core::result::Result<Self, Self::Error>)
        ensures
            bytes_id_result(bytes@, r),
    {
        if bytes.len() == 0 {
            return Err(IqdbError::InvalidConfig { reason: "VectorId::Bytes key must not be empty" });
        }
        let b = into_boxed_bytes(bytes);
        proof {
            let c = choose|c: Box<[u8]>| c@ == bytes@;
            assert(c@ == bytes@);
            assert(&*c =~= &*b);
        }
        Ok(VectorId::Bytes(b))
    }
}

impl TryFromSpecImpl<Vec<u8>> for VectorId {
    open spec fn obeys_try_from_spec() -> bool {
        true
    }

    open spec fn try_from_spec(v: Vec<u8>) -> core::result::Result<Self, Self::Error> {
        if v@.len() == 0 {
            Err(IqdbError::InvalidConfig { reason: "VectorId::Bytes key must not be empty" })
        } else {
            Ok(VectorId::Bytes(choose|b: Box<[u8]>| b@ == v@))
        }
    }
}

/// A `U64` id renders as decimal digits, with no leading zero (unless the id
/// is zero), that read back as the id; a `Bytes` id renders as exactly two
/// lowercase hex digits per key byte, that read back as the key.
pub proof fn lemma_display_shape(id: VectorId)
    ensures
        match id {
            VectorId::U64(n) => {
                &&& forall|i: int|
                    0 <= i < id.display_text().len() ==> #[trigger] is_decimal_digit(
                        id.display_text()[i],
                    )
                &&& id.display_text()[0] == '0' ==> n == 0
                &&& decimal_value(id.display_text()) == n
            },
            VectorId::Bytes(b) => {
                &&& id.display_text().len() == 2 * b@.len()
                &&& forall|i: int|
                    0 <= i < id.display_text().len() ==> #[trigger] is_lower_hex_digit(
                        id.display_text()[i],
                    )
                &&& unhex(id.display_text()) == b@
            },
        },
{
    match id {
        VectorId::U64(n) => lemma_decimal_reads_back(n as nat),
        VectorId::Bytes(b) => {
            lemma_hex_shape(b@);
            lemma_hex_reads_back(b@);
        },
    }
}

/// Two ids of the same kind with the same text are the same id: the
/// rendering loses nothing within a kind.
pub proof fn lemma_display_distinguishes_ids(a: VectorId, b: VectorId)
    requires
        (a is U64 && b is U64) || (a is Bytes && b is Bytes),
        a.display_text() == b.display_text(),
    ensures
        a.same_as(b),
{
    lemma_display_shape(a);
    lemma_display_shape(b);
}

} // verus!
