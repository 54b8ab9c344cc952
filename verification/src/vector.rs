//! Dense `f32` vectors: an owned [`Vector`] and a borrowed [`VectorRef`].
//!
//! These are the raw embeddings the iqdb spine indexes and searches. Each
//! component is held as the bit pattern of its `f32` (see [`crate::ieee`]).
//! They are thin, immutable wrappers — construct one from its data through the
//! fallible [`Vector::new`] (or the equivalent `TryFrom<Vec<u32>>` impl), read
//! it back through the accessors, and (for [`Vector`]) reclaim the buffer with
//! [`Vector::into_inner`]. There is no in-place mutation.

use vstd::prelude::*;
use vstd::std_specs::cmp::PartialEqSpecImpl;
use vstd::std_specs::convert::{FromSpecImpl, TryFromSpecImpl};

use crate::error::IqdbError;
use crate::ieee::{
    f32_bits_eq, f32_bits_is_finite, f32_eq, f32_is_finite, lemma_f32_eq_by_mask,
    lemma_f32_finite_by_mask,
};

verus! {

/// The components are acceptable for a [`Vector`]: at least one, and every
/// one finite (no NaN, no infinity).
pub open spec fn valid_components(data: Seq<u32>) -> bool {
    data.len() > 0 && forall|i: int| 0 <= i < data.len() ==> #[trigger] f32_is_finite(data[i])
}

/// Component-wise IEEE equality of two `f32` sequences of the same length.
pub open spec fn components_eq(a: Seq<u32>, b: Seq<u32>) -> bool {
    a.len() == b.len() && forall|i: int| 0 <= i < a.len() ==> #[trigger] f32_eq(a[i], b[i])
}

/// Compares two component slices with IEEE equality, element by element.
fn slices_eq(a: &[u32], b: &[u32]) -> (r: bool)
    ensures
        r == components_eq(a@, b@),
{
    if a.len() != b.len() {
        return false;
    }
    let n = a.len();
    let mut i: usize = 0;
    while i < n
        invariant
            n == a@.len(),
            n == b@.len(),
            i <= n,
            forall|j: int| 0 <= j < i ==> #[trigger] f32_eq(a@[j], b@[j]),
        decreases n - i,
    {
        if !f32_bits_eq(a[i], b[i]) {
            return false;
        }
        i = i + 1;
    }
    true
}

/// An owned dense vector of `f32` components, each held as its bit pattern.
///
/// Construct one with the fallible [`Vector::new`] (which rejects empty
/// inputs and non-finite components) or its `TryFrom<Vec<u32>>` sibling;
/// read its components with [`as_slice`](Vector::as_slice) or reclaim the
/// buffer with [`into_inner`](Vector::into_inner).
///
/// Validation at this boundary keeps the rest of the spine free of input
/// checks: once a `Vector` exists, the math never has to defend against
/// empty, NaN, or infinite components.
#[derive(Debug)]
pub struct Vector(Vec<u32>);

impl View for Vector {
    type V = Seq<u32>;

    closed spec fn view(&self) -> Seq<u32> {
        self.0@
    }
}

impl Vector {
    #[verifier::type_invariant]
    closed spec fn inv(self) -> bool {
        valid_components(self.0@)
    }

    /// Builds a `Vector` from `data`, validating the contents.
    ///
    /// Returns [`IqdbError::InvalidVector`] when `data` is empty, or when any
    /// component is not finite (NaN or ±infinity).
    pub fn new(data: Vec<u32>) -> (r: crate::error::Result<Vector>)
        ensures
            r is Ok <==> valid_components(data@),
            r matches Ok(v) ==> v@ == data@,
            r matches Err(e) ==> e == IqdbError::InvalidVector,
    {
        Vector::validated(data)
    }

    /// Builds the vector over `data` when its components are acceptable.
    fn validated(data: Vec<u32>) -> (r: crate::error::Result<Vector>)
        ensures
            r == (if valid_components(data@) {
                Ok::<Vector, IqdbError>(Vector(data))
            } else {
                Err(IqdbError::InvalidVector)
            }),
    {
        if data.len() == 0 {
            return Err(IqdbError::InvalidVector);
        }
        let n = data.len();
        let mut i: usize = 0;
        while i < n
            invariant
                n == data@.len(),
                i <= n,
                forall|j: int| 0 <= j < i ==> #[trigger] f32_is_finite(data@[j]),
            decreases n - i,
        {
            if !f32_bits_is_finite(data[i]) {
                return Err(IqdbError::InvalidVector);
            }
            i = i + 1;
        }
        Ok(Vector(data))
    }

    /// Borrows the components as a slice.
    pub fn as_slice(&self) -> (s: &[u32])
        ensures
            s@ == self@,
            valid_components(self@),
    {
        proof {
            use_type_invariant(&self);
        }
        self.0.as_slice()
    }

    /// Returns the number of components.
    pub fn len(&self) -> (n: usize)
        ensures
            n == self@.len(),
            valid_components(self@),
    {
        proof {
            use_type_invariant(&self);
        }
        self.0.len()
    }

    /// Returns `true` if the vector has no components — never, for a
    /// `Vector`, since empty inputs are rejected at construction.
    pub fn is_empty(&self) -> (b: bool)
        ensures
            b == (self@.len() == 0),
            !b,
    {
        proof {
            use_type_invariant(self);
        }
        self.0.len() == 0
    }

    /// Returns the dimensionality of the vector (its component count).
    pub fn dim(&self) -> (n: usize)
        ensures
            n == self@.len(),
            valid_components(self@),
    {
        proof {
            use_type_invariant(&self);
        }
        self.0.len()
    }

    /// Consumes the vector and returns the underlying buffer.
    pub fn into_inner(self) -> (v: Vec<u32>)
        ensures
            v@ == self@,
            valid_components(self@),
    {
        proof {
            use_type_invariant(&self);
        }
        self.0
    }
}

impl Clone for Vector {
    fn clone(&self) -> (c: Self)
        ensures
            c@ == self@,
    {
        proof {
            use_type_invariant(self);
        }
        Vector(self.0.clone())
    }
}

impl PartialEq for Vector {
    fn eq(&self, other: &Self) -> (r: bool) {
        slices_eq(self.0.as_slice(), other.0.as_slice())
    }
}

impl PartialEqSpecImpl for Vector {
    open spec fn obeys_eq_spec() -> bool {
        true
    }

    open spec fn eq_spec(&self, other: &Self) -> bool {
        components_eq(self@, other@)
    }
}

impl TryFrom<Vec<u32>> for Vector {
    type Error = IqdbError;

    /// Accepts and rejects exactly what [`Vector::new`] does: empty and
    /// non-finite inputs are rejected with [`IqdbError::InvalidVector`].
    fn try_from(data: Vec<u32>) -> (r: core::result::Result<Self, Self::Error>)
        ensures
            r is Ok <==> valid_components(data@),
            r matches Ok(v) ==> v@ == data@,
            r matches Err(e) ==> e == IqdbError::InvalidVector,
    {
        Vector::validated(data)
    }
}

impl TryFromSpecImpl<Vec<u32>> for Vector {
    open spec fn obeys_try_from_spec() -> bool {
        true
    }

    closed spec fn try_from_spec(v: Vec<u32>) -> core::result::Result<Self, Self::Error> {
        if valid_components(v@) {
            Ok(Vector(v))
        } else {
            Err(IqdbError::InvalidVector)
        }
    }
}

/// A borrowed dense vector of `f32` components (as bit patterns).
///
/// A zero-copy view over a `&[u32]`, for passing query vectors without taking
/// ownership. It is [`Copy`]. Unlike [`Vector`] it does not validate: an
/// empty or non-finite view is legal.
#[derive(Debug, Clone, Copy)]
pub struct VectorRef<'a>(&'a [u32]);

impl<'a> View for VectorRef<'a> {
    type V = Seq<u32>;

    closed spec fn view(&self) -> Seq<u32> {
        self.0@
    }
}

impl<'a> VectorRef<'a> {
    /// Borrows the components as a slice.
    pub fn as_slice(&self) -> (s: &[u32])
        ensures
            s@ == self@,
    {
        self.0
    }

    /// Returns the number of components.
    pub fn len(&self) -> (n: usize)
        ensures
            n == self@.len(),
    {
        self.0.len()
    }

    /// Returns `true` if the view has no components.
    pub fn is_empty(&self) -> (b: bool)
        ensures
            b == (self@.len() == 0),
    {
        self.0.len() == 0
    }

    /// Returns the dimensionality of the view (its component count).
    pub fn dim(&self) -> (n: usize)
        ensures
            n == self@.len(),
    {
        self.0.len()
    }

    /// Returns the borrowed slice with the lifetime of the borrow.
    pub fn into_inner(self) -> (s: &'a [u32])
        ensures
            s@ == self@,
    {
        self.0
    }
}

impl<'a> From<&'a [u32]> for VectorRef<'a> {
    fn from(data: &'a [u32]) -> (r: Self)
        ensures
            r@ == data@,
    {
        VectorRef(data)
    }
}

impl<'a> FromSpecImpl<&'a [u32]> for VectorRef<'a> {
    open spec fn obeys_from_spec() -> bool {
        true
    }

    closed spec fn from_spec(v: &'a [u32]) -> Self {
        VectorRef(v)
    }
}

impl<'a> PartialEq for VectorRef<'a> {
    fn eq(&self, other: &Self) -> (r: bool) {
        slices_eq(self.0, other.0)
    }
}

impl<'a> PartialEqSpecImpl for VectorRef<'a> {
    open spec fn obeys_eq_spec() -> bool {
        true
    }

    open spec fn eq_spec(&self, other: &Self) -> bool {
        components_eq(self@, other@)
    }
}

/// What `Vector::new` accepts, read off the bits: a non-empty input whose
/// every component has an exponent field (bits 23 to 30) other than all
/// ones, whatever the signs.
pub proof fn lemma_valid_components_by_mask(data: Seq<u32>)
    ensures
        valid_components(data) <==> (data.len() > 0 && forall|i: int|
            0 <= i < data.len() ==> (#[trigger] data[i] & 0x7f80_0000u32) != 0x7f80_0000u32),
{
    assert forall|i: int| 0 <= i < data.len() implies f32_is_finite(#[trigger] data[i]) <==> (
    data[i] & 0x7f80_0000u32) != 0x7f80_0000u32 by {
        lemma_f32_finite_by_mask(data[i]);
    }
}

/// Vectors compare equal exactly when they have the same length and, at
/// every position, neither component is a NaN and the bits are identical or
/// both components are zeros. So vectors that differ in the sign of a
/// nonzero component are unequal.
pub proof fn lemma_components_eq_by_mask(a: Seq<u32>, b: Seq<u32>)
    ensures
        components_eq(a, b) <==> (a.len() == b.len() && forall|i: int|
            0 <= i < a.len() ==> {
                &&& !((#[trigger] a[i] & 0x7f80_0000u32) == 0x7f80_0000u32 && (a[i]
                    & 0x007f_ffffu32) != 0)
                &&& !((b[i] & 0x7f80_0000u32) == 0x7f80_0000u32 && (b[i] & 0x007f_ffffu32) != 0)
                &&& (a[i] == b[i] || ((a[i] & 0x7fff_ffffu32) == 0 && (b[i] & 0x7fff_ffffu32)
                    == 0))
            }),
{
    assert forall|i: int| 0 <= i < a.len() && i < b.len() implies f32_eq(#[trigger] a[i], b[i])
        <==> ({
        &&& !((a[i] & 0x7f80_0000u32) == 0x7f80_0000u32 && (a[i] & 0x007f_ffffu32) != 0)
        &&& !((b[i] & 0x7f80_0000u32) == 0x7f80_0000u32 && (b[i] & 0x007f_ffffu32) != 0)
        &&& (a[i] == b[i] || ((a[i] & 0x7fff_ffffu32) == 0 && (b[i] & 0x7fff_ffffu32) == 0))
    }) by {
        lemma_f32_eq_by_mask(a[i], b[i]);
    }
}

} // verus!
