//! The iqdb domain error.
//!
//! [`IqdbError`] is the single error type for the iqdb vector-database spine.
//! Each variant names one specific failure so a caller can react to the exact
//! cause rather than parsing a message. Every variant has a stable kind name,
//! a distinct human-readable caption and an operator-facing message, each
//! stated here as a spec function and proved of the code that produces it.

use vstd::prelude::*;
use vstd::string::*;

use crate::render::{decimal, push_decimal};

verus! {

/// An error from an iqdb vector-database operation.
///
/// Each variant identifies one specific failure. The enum is
/// `#[non_exhaustive]`: future releases may add variants without it being a
/// breaking change, so a `match` on it must include a wildcard arm.
#[non_exhaustive]
#[derive(Debug, Clone, Copy, PartialEq, Eq)]
pub enum IqdbError {
    /// A vector did not have the dimensionality the operation required —
    /// `expected` is the index's dimension, `found` is what was supplied.
    DimensionMismatch {
        /// The dimensionality the operation required.
        expected: usize,
        /// The dimensionality that was actually supplied.
        found: usize,
    },
    /// A vector was not valid for the operation (for example, empty when a
    /// non-empty vector was required).
    InvalidVector,
    /// A configuration value could not describe a working index or query.
    /// `reason` is a short static description of which configuration check
    /// failed, suitable for inclusion in operator-facing logs.
    InvalidConfig {
        /// Short static description of which configuration check failed.
        reason: &'static str,
    },
    /// The requested id or record does not exist.
    NotFound,
    /// An insert collided with an id that is already present.
    Duplicate,
    /// The distance metric was not valid for the operation or the vectors.
    InvalidMetric,
    /// A filter expression was malformed or could not be evaluated.
    InvalidFilter,
    /// An incoming write exceeded a configured resource limit. `kind` names
    /// which cap was hit (one of `"id_bytes"`, `"metadata_keys"`,
    /// `"metadata_key_bytes"`, `"metadata_value_string_bytes"`,
    /// `"total_vectors"`); `max` is the cap; `found` is what the caller
    /// supplied. Surfaces from the `Database` write boundary; the
    /// type-level constructors in this crate never produce it.
    ResourceLimitExceeded {
        /// Short, stable identifier for the cap that was exceeded.
        kind: &'static str,
        /// The configured maximum the cap allowed.
        max: usize,
        /// The value the caller actually supplied.
        found: usize,
    },
}

/// A specialized [`Result`](core::result::Result) whose error is [`IqdbError`].
pub type Result<T> = core::result::Result<T, IqdbError>;

impl IqdbError {
    /// The position of the variant in the declaration, `0` to `7`.
    pub open spec fn variant_index(self) -> nat {
        match self {
            IqdbError::DimensionMismatch { .. } => 0,
            IqdbError::InvalidVector => 1,
            IqdbError::InvalidConfig { .. } => 2,
            IqdbError::NotFound => 3,
            IqdbError::Duplicate => 4,
            IqdbError::InvalidMetric => 5,
            IqdbError::InvalidFilter => 6,
            IqdbError::ResourceLimitExceeded { .. } => 7,
        }
    }

    /// The stable kind name of the variant: the variant's own name.
    pub open spec fn kind_text(self) -> Seq<char> {
        match self {
            IqdbError::DimensionMismatch { .. } => "DimensionMismatch"@,
            IqdbError::InvalidVector => "InvalidVector"@,
            IqdbError::InvalidConfig { .. } => "InvalidConfig"@,
            IqdbError::NotFound => "NotFound"@,
            IqdbError::Duplicate => "Duplicate"@,
            IqdbError::InvalidMetric => "InvalidMetric"@,
            IqdbError::InvalidFilter => "InvalidFilter"@,
            IqdbError::ResourceLimitExceeded { .. } => "ResourceLimitExceeded"@,
        }
    }

    /// The human-readable caption of the variant.
    pub open spec fn caption_text(self) -> Seq<char> {
        match self {
            IqdbError::DimensionMismatch { .. } => "vector dimension does not match the index"@,
            IqdbError::InvalidVector => "vector is empty or contains non-finite components"@,
            IqdbError::InvalidConfig {
                ..
            } => "configuration is not valid for the requested operation"@,
            IqdbError::NotFound => "requested id is not present in the index"@,
            IqdbError::Duplicate => "id already exists in the index"@,
            IqdbError::InvalidMetric => "distance metric does not match the index or vectors"@,
            IqdbError::InvalidFilter => "filter expression is malformed or cannot be evaluated"@,
            IqdbError::ResourceLimitExceeded {
                ..
            } => "an input exceeded a configured resource limit"@,
        }
    }

    /// The operator-facing message of the error, with its fields rendered in
    /// decimal and its static strings inserted verbatim.
    pub open spec fn message_text(self) -> Seq<char> {
        match self {
            IqdbError::DimensionMismatch { expected, found } => "vector dimension mismatch: expected "@
                + decimal(expected as nat) + ", found "@ + decimal(found as nat),
            IqdbError::InvalidVector => "invalid vector"@,
            IqdbError::InvalidConfig { reason } => "invalid configuration: "@ + reason@,
            IqdbError::NotFound => "not found"@,
            IqdbError::Duplicate => "duplicate id"@,
            IqdbError::InvalidMetric => "invalid distance metric"@,
            IqdbError::InvalidFilter => "invalid filter"@,
            IqdbError::ResourceLimitExceeded { kind, max, found } => "resource limit exceeded: "@
                + kind@ + " max="@ + decimal(max as nat) + " found="@ + decimal(found as nat),
        }
    }

    /// Returns the kind of the error: the name of its variant.
    pub fn kind(&self) -> (k: &'static str)
        ensures
            k@ == self.kind_text(),
    {
        match self {
            IqdbError::DimensionMismatch { .. } => "DimensionMismatch",
            IqdbError::InvalidVector => "InvalidVector",
            IqdbError::InvalidConfig { .. } => "InvalidConfig",
            IqdbError::NotFound => "NotFound",
            IqdbError::Duplicate => "Duplicate",
            IqdbError::InvalidMetric => "InvalidMetric",
            IqdbError::InvalidFilter => "InvalidFilter",
            IqdbError::ResourceLimitExceeded { .. } => "ResourceLimitExceeded",
        }
    }

    /// Returns a human-readable caption for the error, distinct for every
    /// variant (see [`lemma_captions_distinct`]).
    pub fn caption(&self) -> (c: &'static str)
        ensures
            c@ == self.caption_text(),
    {
        match self {
            IqdbError::DimensionMismatch { .. } => "vector dimension does not match the index",
            IqdbError::InvalidVector => "vector is empty or contains non-finite components",
            IqdbError::InvalidConfig {
                ..
            } => "configuration is not valid for the requested operation",
            IqdbError::NotFound => "requested id is not present in the index",
            IqdbError::Duplicate => "id already exists in the index",
            IqdbError::InvalidMetric => "distance metric does not match the index or vectors",
            IqdbError::InvalidFilter => "filter expression is malformed or cannot be evaluated",
            IqdbError::ResourceLimitExceeded {
                ..
            } => "an input exceeded a configured resource limit",
        }
    }

    /// Renders the operator-facing message, for example
    /// `vector dimension mismatch: expected 3, found 2`.
    pub fn to_string(&self) -> (s: String)
        ensures
            s@ == self.message_text(),
    {
        match self {
            IqdbError::DimensionMismatch { expected, found } => {
                let mut s = String::from_str("vector dimension mismatch: expected ");
                push_decimal(&mut s, *expected as u64);
                s.append(", found ");
                push_decimal(&mut s, *found as u64);
                s
            },
            IqdbError::InvalidVector => String::from_str("invalid vector"),
            IqdbError::InvalidConfig { reason } => {
                let mut s = String::from_str("invalid configuration: ");
                s.append(reason);
                s
            },
            IqdbError::NotFound => String::from_str("not found"),
            IqdbError::Duplicate => String::from_str("duplicate id"),
            IqdbError::InvalidMetric => String::from_str("invalid distance metric"),
            IqdbError::InvalidFilter => String::from_str("invalid filter"),
            IqdbError::ResourceLimitExceeded { kind, max, found } => {
                let mut s = String::from_str("resource limit exceeded: ");
                s.append(kind);
                s.append(" max=");
                push_decimal(&mut s, *max as u64);
                s.append(" found=");
                push_decimal(&mut s, *found as u64);
                s
            },
        }
    }
}

/// Every variant has a non-empty caption, and no two variants share one, so a
/// caption alone tells which failure happened.
pub proof fn lemma_captions_distinct(a: IqdbError, b: IqdbError)
    ensures
        a.caption_text().len() > 0,
        a.variant_index() != b.variant_index() ==> a.caption_text() != b.caption_text(),
{
    reveal_strlit("vector dimension does not match the index");
    reveal_strlit("vector is empty or contains non-finite components");
    reveal_strlit("configuration is not valid for the requested operation");
    reveal_strlit("requested id is not present in the index");
    reveal_strlit("id already exists in the index");
    reveal_strlit("distance metric does not match the index or vectors");
    reveal_strlit("filter expression is malformed or cannot be evaluated");
    reveal_strlit("an input exceeded a configured resource limit");
    if a.variant_index() != b.variant_index() {
        assert(a.caption_text().len() != b.caption_text().len());
    }
}

/// Every variant has a non-empty kind name, and no two variants share one.
pub proof fn lemma_kinds_distinct(a: IqdbError, b: IqdbError)
    ensures
        a.kind_text().len() > 0,
        a.variant_index() != b.variant_index() ==> a.kind_text() != b.kind_text(),
{
    reveal_strlit("DimensionMismatch");
    reveal_strlit("InvalidVector");
    reveal_strlit("InvalidConfig");
    reveal_strlit("NotFound");
    reveal_strlit("Duplicate");
    reveal_strlit("InvalidMetric");
    reveal_strlit("InvalidFilter");
    reveal_strlit("ResourceLimitExceeded");
    if a.variant_index() != b.variant_index() && a.kind_text().len() == b.kind_text().len() {
        assert(a.kind_text()[7] != b.kind_text()[7]);
    }
}

/// The message of an `InvalidConfig` error carries its reason: two such
/// errors with different reasons render differently.
pub proof fn lemma_invalid_config_reasons_render_distinctly(r1: &'static str, r2: &'static str)
    requires
        r1@ != r2@,
    ensures
        (IqdbError::InvalidConfig { reason: r1 }).message_text() != (IqdbError::InvalidConfig {
            reason: r2,
        }).message_text(),
{
    let p = "invalid configuration: "@;
    let m1 = p + r1@;
    let m2 = p + r2@;
    assert(m1.subrange(p.len() as int, m1.len() as int) =~= r1@);
    assert(m2.subrange(p.len() as int, m2.len() as int) =~= r2@);
}

} // verus!
