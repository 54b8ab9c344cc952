//! Metadata filter expressions.
//!
//! A [`Filter`] is a small boolean expression tree over a record's
//! [`Metadata`](crate::Metadata): leaf comparisons against a field's
//! [`Value`], combined with `And`/`Or`/`Not`. It describes *which* records a
//! search may consider; evaluation lives in the engine. The constructor
//! helpers ([`Filter::eq`], [`Filter::and`], [`Filter::not`], …) make a tree
//! readable to build by hand.
//!
//! What a filter means is written down here as a spec function,
//! [`Filter::admits`], and the rules the documentation promises of it are
//! proved as lemmas.

use vstd::prelude::*;
use vstd::std_specs::cmp::PartialEqSpecImpl;

use crate::ieee::f64_lt;
use crate::keys::key_lt;
use crate::metadata::{lookup, value_eq, value_kind, Value};

verus! {

/// A boolean filter expression over record metadata.
///
/// Leaves compare one `field` against a [`Value`]; `And`/`Or`/`Not` combine
/// sub-expressions. Build it with the constructor helpers rather than the
/// variants directly.
///
/// # Null and absent-field semantics
///
/// `Filter` follows a **closed-world** rule: a leaf comparison whose `field` is
/// absent from a record's metadata evaluates to `false`. This applies to every
/// leaf — [`Eq`](Filter::Eq), [`Neq`](Filter::Neq), [`Lt`](Filter::Lt),
/// [`Lte`](Filter::Lte), [`Gt`](Filter::Gt), [`Gte`](Filter::Gte), and
/// [`In`](Filter::In). Type mismatches between the field's stored value and
/// the literal also evaluate to `false` (a `Value::Int` field compared against
/// a `Value::String` literal does not match).
///
/// This makes `Neq` and `Not(Eq)` **not** interchangeable on absent fields:
/// `Filter::neq("author", ..)` is `false` for a record with no `author` field,
/// while `Filter::not(Filter::eq("author", ..))` is `true` for it.
///
/// A NaN float under `Lt`/`Lte`/`Gt`/`Gte` also evaluates to `false`
/// (IEEE-754 unordered). An empty `And` is `true` and an empty `Or` is
/// `false`.
#[derive(Debug)]
pub enum Filter {
    /// Matches when `field` equals `value`.
    Eq {
        /// The metadata field to test.
        field: String,
        /// The value to compare against.
        value: Value,
    },
    /// Matches when `field` does not equal `value`.
    Neq {
        /// The metadata field to test.
        field: String,
        /// The value to compare against.
        value: Value,
    },
    /// Matches when `field` is strictly less than `value`.
    Lt {
        /// The metadata field to test.
        field: String,
        /// The value to compare against.
        value: Value,
    },
    /// Matches when `field` is less than or equal to `value`.
    Lte {
        /// The metadata field to test.
        field: String,
        /// The value to compare against.
        value: Value,
    },
    /// Matches when `field` is strictly greater than `value`.
    Gt {
        /// The metadata field to test.
        field: String,
        /// The value to compare against.
        value: Value,
    },
    /// Matches when `field` is greater than or equal to `value`.
    Gte {
        /// The metadata field to test.
        field: String,
        /// The value to compare against.
        value: Value,
    },
    /// Matches when `field` equals any of `values`.
    In {
        /// The metadata field to test.
        field: String,
        /// The set of acceptable values.
        values: Vec<Value>,
    },
    /// Matches when every sub-filter matches.
    And(Vec<Filter>),
    /// Matches when any sub-filter matches.
    Or(Vec<Filter>),
    /// Matches when the sub-filter does not match.
    Not(Box<Filter>),
}

/// Creates a `String` holding a copy of a string slice.
///
/// Trusted: std documents `From<&str> for String` as allocating a `String`
/// with the slice's contents, so the text of the result is the text of the
/// argument. This is what a field name given as a `&str` becomes in the leaf
/// constructors.
pub assume_specification<'a>[ <std::string::String as std::convert::From<&'a str>>::from ](
    s: &str,
) -> (r: std::string::String)
    ensures
        r@ == s@,
;

/// The order on values that range leaves use: integers by value, floats by
/// IEEE `<` (never true for NaN), strings by key order (UTF-8 bytes); values
/// of different kinds, booleans and nulls are unordered.
pub open spec fn value_lt(a: Value, b: Value) -> bool {
    match (a, b) {
        (Value::Int(x), Value::Int(y)) => x < y,
        (Value::Float(x), Value::Float(y)) => f64_lt(x, y),
        (Value::String(x), Value::String(y)) => key_lt(x@, y@),
        _ => false,
    }
}

/// A leaf test on one field: true when the record has metadata, the
/// metadata has `field`, and its stored value passes `test`. An absent field
/// (or absent metadata) is `false`: the closed-world rule.
pub open spec fn leaf(
    record: Option<Seq<(String, Value)>>,
    field: Seq<char>,
    test: spec_fn(Value) -> bool,
) -> bool {
    match record {
        Some(entries) => match lookup(entries, field) {
            Some(stored) => test(stored),
            None => false,
        },
        None => false,
    }
}

impl Filter {
    /// Whether the filter admits a record whose metadata entries are `record`
    /// (`None` for a record without metadata).
    pub open spec fn admits(self, record: Option<Seq<(String, Value)>>) -> bool
        decreases self,
    {
        match self {
            Filter::Eq { field, value } => leaf(record, field@, |v: Value| value_eq(v, value)),
            Filter::Neq { field, value } => leaf(record, field@, |v: Value| !value_eq(v, value)),
            Filter::Lt { field, value } => leaf(record, field@, |v: Value| value_lt(v, value)),
            Filter::Lte { field, value } => leaf(
                record,
                field@,
                |v: Value| value_lt(v, value) || value_eq(v, value),
            ),
            Filter::Gt { field, value } => leaf(record, field@, |v: Value| value_lt(value, v)),
            Filter::Gte { field, value } => leaf(
                record,
                field@,
                |v: Value| value_lt(value, v) || value_eq(v, value),
            ),
            Filter::In { field, values } => leaf(
                record,
                field@,
                |v: Value| exists|i: int| 0 <= i < values@.len() && value_eq(v, #[trigger] values@[i]),
            ),
            Filter::And(subs) => forall|i: int|
                0 <= i < subs@.len() ==> (#[trigger] subs@[i]).admits(record),
            Filter::Or(subs) => exists|i: int|
                0 <= i < subs@.len() && (#[trigger] subs@[i]).admits(record),
            Filter::Not(inner) => !inner.admits(record),
        }
    }

    /// Builds an [`Eq`](Filter::Eq) leaf: `field == value`.
    ///
    /// The field name is `field.into()`.
    pub fn eq<F: Into<String>>(field: F, value: Value) -> (r: Self)
        ensures
            r matches Filter::Eq { field: f, value: v } && v == value && call_ensures(
                F::into,
                (field,),
                f,
            ),
    {
        Filter::Eq { field: field.into(), value }
    }

    /// Builds a [`Neq`](Filter::Neq) leaf: `field != value`.
    ///
    /// The field name is `field.into()`.
    pub fn neq<F: Into<String>>(field: F, value: Value) -> (r: Self)
        ensures
            r matches Filter::Neq { field: f, value: v } && v == value && call_ensures(
                F::into,
                (field,),
                f,
            ),
    {
        Filter::Neq { field: field.into(), value }
    }

    /// Builds an [`Lt`](Filter::Lt) leaf: `field < value`.
    ///
    /// The field name is `field.into()`.
    pub fn lt<F: Into<String>>(field: F, value: Value) -> (r: Self)
        ensures
            r matches Filter::Lt { field: f, value: v } && v == value && call_ensures(
                F::into,
                (field,),
                f,
            ),
    {
        Filter::Lt { field: field.into(), value }
    }

    /// Builds an [`Lte`](Filter::Lte) leaf: `field <= value`.
    ///
    /// The field name is `field.into()`.
    pub fn lte<F: Into<String>>(field: F, value: Value) -> (r: Self)
        ensures
            r matches Filter::Lte { field: f, value: v } && v == value && call_ensures(
                F::into,
                (field,),
                f,
            ),
    {
        Filter::Lte { field: field.into(), value }
    }

    /// Builds a [`Gt`](Filter::Gt) leaf: `field > value`.
    ///
    /// The field name is `field.into()`.
    pub fn gt<F: Into<String>>(field: F, value: Value) -> (r: Self)
        ensures
            r matches Filter::Gt { field: f, value: v } && v == value && call_ensures(
                F::into,
                (field,),
                f,
            ),
    {
        Filter::Gt { field: field.into(), value }
    }

    /// Builds a [`Gte`](Filter::Gte) leaf: `field >= value`.
    ///
    /// The field name is `field.into()`.
    pub fn gte<F: Into<String>>(field: F, value: Value) -> (r: Self)
        ensures
            r matches Filter::Gte { field: f, value: v } && v == value && call_ensures(
                F::into,
                (field,),
                f,
            ),
    {
        Filter::Gte { field: field.into(), value }
    }

    /// Builds an [`In`](Filter::In) leaf: `field` equals any of `values`.
    ///
    /// The field name is `field.into()`.
    pub fn is_in<F: Into<String>>(field: F, values: Vec<Value>) -> (r: Self)
        ensures
            r matches Filter::In { field: f, values: v } && v == values && call_ensures(
                F::into,
                (field,),
                f,
            ),
    {
        Filter::In { field: field.into(), values }
    }

    /// Builds an [`And`](Filter::And) node: every sub-filter must match.
    ///
    /// An empty `filters` vector evaluates to **`true`** (vacuous truth —
    /// see [`lemma_empty_and_or`]).
    pub fn and(filters: Vec<Filter>) -> (r: Self)
        ensures
            r == Filter::And(filters),
    {
        Filter::And(filters)
    }

    /// Builds an [`Or`](Filter::Or) node: any sub-filter may match.
    ///
    /// An empty `filters` vector evaluates to **`false`** (see
    /// [`lemma_empty_and_or`]).
    pub fn or(filters: Vec<Filter>) -> (r: Self)
        ensures
            r == Filter::Or(filters),
    {
        Filter::Or(filters)
    }

    /// Builds a [`Not`](Filter::Not) node: negates the sub-filter.
    pub fn not(inner: Filter) -> (r: Self)
        ensures
            r == Filter::Not(Box::new(inner)),
    {
        Filter::Not(Box::new(inner))
    }
}

/// Two filters have the same shape, fields, and values: what a clone is of
/// the filter it copies.
pub open spec fn same_filter(a: Filter, b: Filter) -> bool
    decreases a,
{
    match (a, b) {
        (Filter::Eq { field: f, value: v }, Filter::Eq { field: g, value: w }) => f@ == g@ && v == w,
        (Filter::Neq { field: f, value: v }, Filter::Neq { field: g, value: w }) => f@ == g@ && v
            == w,
        (Filter::Lt { field: f, value: v }, Filter::Lt { field: g, value: w }) => f@ == g@ && v == w,
        (Filter::Lte { field: f, value: v }, Filter::Lte { field: g, value: w }) => f@ == g@ && v
            == w,
        (Filter::Gt { field: f, value: v }, Filter::Gt { field: g, value: w }) => f@ == g@ && v == w,
        (Filter::Gte { field: f, value: v }, Filter::Gte { field: g, value: w }) => f@ == g@ && v
            == w,
        (Filter::In { field: f, values: v }, Filter::In { field: g, values: w }) => f@ == g@ && v@
            == w@,
        (Filter::And(x), Filter::And(y)) => x@.len() == y@.len() && forall|i: int|
            0 <= i < x@.len() ==> same_filter(#[trigger] x@[i], y@[i]),
        (Filter::Or(x), Filter::Or(y)) => x@.len() == y@.len() && forall|i: int|
            0 <= i < x@.len() ==> same_filter(#[trigger] x@[i], y@[i]),
        (Filter::Not(x), Filter::Not(y)) => same_filter(*x, *y),
        _ => false,
    }
}

/// Copies a list of values.
fn clone_values(v: &Vec<Value>) -> (c: Vec<Value>)
    ensures
        c@ == v@,
{
    let n = v.len();
    let mut c: Vec<Value> = Vec::new();
    let mut i: usize = 0;
    while i < n
        invariant
            n == v@.len(),
            i <= n,
            c@ =~= v@.take(i as int),
        decreases n - i,
    {
        c.push(v[i].clone());
        i = i + 1;
    }
    c
}

/// Copies a filter tree.
fn clone_filter(f: &Filter) -> (c: Filter)
    ensures
        same_filter(c, *f),
    decreases f,
{
    match f {
        Filter::Eq { field, value } => Filter::Eq { field: field.clone(), value: value.clone() },
        Filter::Neq { field, value } => Filter::Neq { field: field.clone(), value: value.clone() },
        Filter::Lt { field, value } => Filter::Lt { field: field.clone(), value: value.clone() },
        Filter::Lte { field, value } => Filter::Lte { field: field.clone(), value: value.clone() },
        Filter::Gt { field, value } => Filter::Gt { field: field.clone(), value: value.clone() },
        Filter::Gte { field, value } => Filter::Gte { field: field.clone(), value: value.clone() },
        Filter::In { field, values } => Filter::In {
            field: field.clone(),
            values: clone_values(values),
        },
        Filter::And(subs) => Filter::And(clone_filters(subs)),
        Filter::Or(subs) => Filter::Or(clone_filters(subs)),
        Filter::Not(inner) => Filter::Not(Box::new(clone_filter(inner))),
    }
}

/// Copies a list of filter trees.
fn clone_filters(v: &Vec<Filter>) -> (c: Vec<Filter>)
    ensures
        c@.len() == v@.len(),
        forall|i: int| 0 <= i < v@.len() ==> same_filter(#[trigger] c@[i], v@[i]),
    decreases v,
{
    let n = v.len();
    let mut c: Vec<Filter> = Vec::new();
    let mut i: usize = 0;
    while i < n
        invariant
            n == v@.len(),
            i <= n,
            c@.len() == i,
            forall|j: int| 0 <= j < i ==> same_filter(#[trigger] c@[j], v@[j]),
        decreases n - i,
    {
        proof {
            vstd::std_specs::vec::axiom_vec_index_decreases(*v, i as int);
        }
        c.push(clone_filter(&v[i]));
        i = i + 1;
    }
    c
}

impl Clone for Filter {
    fn clone(&self) -> (c: Self)
        ensures
            same_filter(c, *self),
    {
        clone_filter(self)
    }
}

/// Element-wise value equality of two lists of values.
pub open spec fn values_eq(a: Seq<Value>, b: Seq<Value>) -> bool {
    a.len() == b.len() && forall|i: int| #![trigger a[i]] 0 <= i < a.len() ==> value_eq(a[i], b[i])
}

/// Equality of filters: the same shape, with equal field names and
/// [`value_eq`]-equal values — what `==` on two filters computes.
pub open spec fn filter_eq(a: Filter, b: Filter) -> bool
    decreases a,
{
    match (a, b) {
        (Filter::Eq { field: f, value: v }, Filter::Eq { field: g, value: w }) => f@ == g@
            && value_eq(v, w),
        (Filter::Neq { field: f, value: v }, Filter::Neq { field: g, value: w }) => f@ == g@
            && value_eq(v, w),
        (Filter::Lt { field: f, value: v }, Filter::Lt { field: g, value: w }) => f@ == g@
            && value_eq(v, w),
        (Filter::Lte { field: f, value: v }, Filter::Lte { field: g, value: w }) => f@ == g@
            && value_eq(v, w),
        (Filter::Gt { field: f, value: v }, Filter::Gt { field: g, value: w }) => f@ == g@
            && value_eq(v, w),
        (Filter::Gte { field: f, value: v }, Filter::Gte { field: g, value: w }) => f@ == g@
            && value_eq(v, w),
        (Filter::In { field: f, values: v }, Filter::In { field: g, values: w }) => f@ == g@
            && values_eq(v@, w@),
        (Filter::And(x), Filter::And(y)) => x@.len() == y@.len() && forall|i: int|
            0 <= i < x@.len() ==> filter_eq(#[trigger] x@[i], y@[i]),
        (Filter::Or(x), Filter::Or(y)) => x@.len() == y@.len() && forall|i: int|
            0 <= i < x@.len() ==> filter_eq(#[trigger] x@[i], y@[i]),
        (Filter::Not(x), Filter::Not(y)) => filter_eq(*x, *y),
        _ => false,
    }
}

/// Compares two lists of values element by element.
fn equal_values(a: &Vec<Value>, b: &Vec<Value>) -> (r: bool)
    ensures
        r == values_eq(a@, b@),
{
    let n = a.len();
    if n != b.len() {
        return false;
    }
    let mut i: usize = 0;
    while i < n
        invariant
            n == a@.len(),
            n == b@.len(),
            i <= n,
            forall|j: int| #![trigger a@[j]] 0 <= j < i ==> value_eq(a@[j], b@[j]),
        decreases n - i,
    {
        if !(a[i] == b[i]) {
            return false;
        }
        i = i + 1;
    }
    true
}

/// Compares two filter trees.
fn equal_filter(a: &Filter, b: &Filter) -> (r: bool)
    ensures
        r == filter_eq(*a, *b),
    decreases a,
{
    match (a, b) {
        (Filter::Eq { field: f, value: v }, Filter::Eq { field: g, value: w }) => *f == *g && *v == *w,
        (Filter::Neq { field: f, value: v }, Filter::Neq { field: g, value: w }) => *f == *g && *v
            == *w,
        (Filter::Lt { field: f, value: v }, Filter::Lt { field: g, value: w }) => *f == *g && *v == *w,
        (Filter::Lte { field: f, value: v }, Filter::Lte { field: g, value: w }) => *f == *g && *v
            == *w,
        (Filter::Gt { field: f, value: v }, Filter::Gt { field: g, value: w }) => *f == *g && *v == *w,
        (Filter::Gte { field: f, value: v }, Filter::Gte { field: g, value: w }) => *f == *g && *v
            == *w,
        (Filter::In { field: f, values: v }, Filter::In { field: g, values: w }) => *f == *g
            && equal_values(v, w),
        (Filter::And(x), Filter::And(y)) => equal_filters(x, y),
        (Filter::Or(x), Filter::Or(y)) => equal_filters(x, y),
        (Filter::Not(x), Filter::Not(y)) => equal_filter(x, y),
        _ => false,
    }
}

/// Compares two lists of filter trees element by element.
fn equal_filters(a: &Vec<Filter>, b: &Vec<Filter>) -> (r: bool)
    ensures
        r == (a@.len() == b@.len() && forall|i: int|
            0 <= i < a@.len() ==> filter_eq(#[trigger] a@[i], b@[i])),
    decreases a,
{
    let n = a.len();
    if n != b.len() {
        return false;
    }
    let mut i: usize = 0;
    while i < n
        invariant
            n == a@.len(),
            n == b@.len(),
            i <= n,
            forall|j: int| 0 <= j < i ==> filter_eq(#[trigger] a@[j], b@[j]),
        decreases n - i,
    {
        proof {
            vstd::std_specs::vec::axiom_vec_index_decreases(*a, i as int);
        }
        if !equal_filter(&a[i], &b[i]) {
            return false;
        }
        i = i + 1;
    }
    true
}

impl PartialEq for Filter {
    fn eq(&self, other: &Self) -> (r: bool) {
        equal_filter(self, other)
    }
}

impl PartialEqSpecImpl for Filter {
    open spec fn obeys_eq_spec() -> bool {
        true
    }

    open spec fn eq_spec(&self, other: &Self) -> bool {
        filter_eq(*self, *other)
    }
}

/// The field a leaf tests, for the leaves; `None` for `And`/`Or`/`Not`.
pub open spec fn leaf_field(f: Filter) -> Option<Seq<char>> {
    match f {
        Filter::Eq { field, .. } => Some(field@),
        Filter::Neq { field, .. } => Some(field@),
        Filter::Lt { field, .. } => Some(field@),
        Filter::Lte { field, .. } => Some(field@),
        Filter::Gt { field, .. } => Some(field@),
        Filter::Gte { field, .. } => Some(field@),
        Filter::In { field, .. } => Some(field@),
        _ => None,
    }
}

/// The record has no value for `field` (or no metadata at all).
pub open spec fn field_absent(record: Option<Seq<(String, Value)>>, field: Seq<char>) -> bool {
    match record {
        Some(entries) => lookup(entries, field) is None,
        None => true,
    }
}

/// An empty `And` admits every record and an empty `Or` admits none, with
/// or without metadata.
pub proof fn lemma_empty_and_or(subs: Vec<Filter>, record: Option<Seq<(String, Value)>>)
    requires
        subs@.len() == 0,
    ensures
        Filter::And(subs).admits(record),
        !Filter::Or(subs).admits(record),
{
}

/// The closed-world rule: a leaf whose field is absent from the record does
/// not admit it, whatever the leaf compares.
pub proof fn lemma_absent_field_fails_every_leaf(f: Filter, record: Option<Seq<(String, Value)>>)
    requires
        leaf_field(f) matches Some(field) && field_absent(record, field),
    ensures
        !f.admits(record),
{
}

/// `Neq` and `Not(Eq)` differ exactly on absent fields: on a record without
/// the field, `Neq` rejects while `Not(Eq)` admits; on a record with it,
/// they agree.
pub proof fn lemma_neq_versus_not_eq(
    field: String,
    value: Value,
    record: Option<Seq<(String, Value)>>,
)
    ensures
        field_absent(record, field@) ==> !(Filter::Neq { field, value }).admits(record) && (
        Filter::Not(Box::new(Filter::Eq { field, value }))).admits(record),
        !field_absent(record, field@) ==> (Filter::Neq { field, value }).admits(record) == (
        Filter::Not(Box::new(Filter::Eq { field, value }))).admits(record),
{
    reveal_with_fuel(Filter::admits, 2);
}

/// A stored value of another kind than the literal never matches an `Eq`,
/// `Lt`, `Lte`, `Gt` or `Gte` leaf.
pub proof fn lemma_kind_mismatch_fails(
    field: String,
    value: Value,
    record: Seq<(String, Value)>,
)
    requires
        lookup(record, field@) matches Some(stored) && value_kind(stored) != value_kind(value),
    ensures
        !(Filter::Eq { field, value }).admits(Some(record)),
        !(Filter::Lt { field, value }).admits(Some(record)),
        !(Filter::Lte { field, value }).admits(Some(record)),
        !(Filter::Gt { field, value }).admits(Some(record)),
        !(Filter::Gte { field, value }).admits(Some(record)),
{
}

/// A NaN on either side makes every ordered leaf (`Lt`, `Lte`, `Gt`, `Gte`)
/// reject, because NaN is unordered.
pub proof fn lemma_nan_is_unordered(field: String, x: u64, record: Seq<(String, Value)>, y: u64)
    requires
        lookup(record, field@) == Some(Value::Float(x)),
        crate::ieee::f64_is_nan(x) || crate::ieee::f64_is_nan(y),
    ensures
        !(Filter::Lt { field, value: Value::Float(y) }).admits(Some(record)),
        !(Filter::Lte { field, value: Value::Float(y) }).admits(Some(record)),
        !(Filter::Gt { field, value: Value::Float(y) }).admits(Some(record)),
        !(Filter::Gte { field, value: Value::Float(y) }).admits(Some(record)),
{
}

/// Negating twice gives back the filter's meaning.
pub proof fn lemma_double_negation(f: Filter, record: Option<Seq<(String, Value)>>)
    ensures
        Filter::Not(Box::new(Filter::Not(Box::new(f)))).admits(record) == f.admits(record),
{
    reveal_with_fuel(Filter::admits, 3);
}

/// The position of a filter's variant in the declaration, `0` to `9`.
pub open spec fn filter_variant(f: Filter) -> nat {
    match f {
        Filter::Eq { .. } => 0,
        Filter::Neq { .. } => 1,
        Filter::Lt { .. } => 2,
        Filter::Lte { .. } => 3,
        Filter::Gt { .. } => 4,
        Filter::Gte { .. } => 5,
        Filter::In { .. } => 6,
        Filter::And(_) => 7,
        Filter::Or(_) => 8,
        Filter::Not(_) => 9,
    }
}

/// Equal filters have the same variant and, for leaves, the same field
/// text; for `And`/`Or`, the same number of sub-filters, pairwise equal.
pub proof fn lemma_equal_filters_have_same_shape(a: Filter, b: Filter)
    requires
        filter_eq(a, b),
    ensures
        filter_variant(a) == filter_variant(b),
        leaf_field(a) == leaf_field(b),
        (a matches Filter::And(x) ==> b matches Filter::And(y) && x@.len() == y@.len()),
        (a matches Filter::Or(x) ==> b matches Filter::Or(y) && x@.len() == y@.len()),
{
}

/// Values equal under `value_eq` compare alike with any third value, under
/// equality and under the order of range leaves.
proof fn lemma_value_eq_substitutes(x: Value, v: Value, w: Value)
    requires
        value_eq(v, w),
    ensures
        value_eq(x, v) == value_eq(x, w),
        value_eq(v, x) == value_eq(w, x),
        value_lt(x, v) == value_lt(x, w),
        value_lt(v, x) == value_lt(w, x),
{
}

/// Equal filters admit the same records: `==` on filters never equates two
/// filters that mean different things.
pub proof fn lemma_equal_filters_admit_alike(
    a: Filter,
    b: Filter,
    record: Option<Seq<(String, Value)>>,
)
    requires
        filter_eq(a, b),
    ensures
        a.admits(record) == b.admits(record),
    decreases a,
{
    match (a, b) {
        (Filter::Eq { field: f, value: v }, Filter::Eq { field: g, value: w }) => {
            if let Some(e) = record {
                if let Some(x) = lookup(e, f@) {
                    lemma_value_eq_substitutes(x, v, w);
                }
            }
        },
        (Filter::Neq { field: f, value: v }, Filter::Neq { field: g, value: w }) => {
            if let Some(e) = record {
                if let Some(x) = lookup(e, f@) {
                    lemma_value_eq_substitutes(x, v, w);
                }
            }
        },
        (Filter::Lt { field: f, value: v }, Filter::Lt { field: g, value: w }) => {
            if let Some(e) = record {
                if let Some(x) = lookup(e, f@) {
                    lemma_value_eq_substitutes(x, v, w);
                }
            }
        },
        (Filter::Lte { field: f, value: v }, Filter::Lte { field: g, value: w }) => {
            if let Some(e) = record {
                if let Some(x) = lookup(e, f@) {
                    lemma_value_eq_substitutes(x, v, w);
                }
            }
        },
        (Filter::Gt { field: f, value: v }, Filter::Gt { field: g, value: w }) => {
            if let Some(e) = record {
                if let Some(x) = lookup(e, f@) {
                    lemma_value_eq_substitutes(x, v, w);
                }
            }
        },
        (Filter::Gte { field: f, value: v }, Filter::Gte { field: g, value: w }) => {
            if let Some(e) = record {
                if let Some(x) = lookup(e, f@) {
                    lemma_value_eq_substitutes(x, v, w);
                }
            }
        },
        (Filter::In { field: f, values: v }, Filter::In { field: g, values: w }) => {
            if let Some(e) = record {
                if let Some(x) = lookup(e, f@) {
                    assert forall|i: int| 0 <= i < v@.len() implies value_eq(x, #[trigger] v@[i])
                        == value_eq(x, w@[i]) by {
                        lemma_value_eq_substitutes(x, v@[i], w@[i]);
                    }
                    if exists|i: int| 0 <= i < v@.len() && value_eq(x, #[trigger] v@[i]) {
                        let i = choose|i: int| 0 <= i < v@.len() && value_eq(x, #[trigger] v@[i]);
                        assert(value_eq(x, w@[i]));
                    }
                    if exists|i: int| 0 <= i < w@.len() && value_eq(x, #[trigger] w@[i]) {
                        let i = choose|i: int| 0 <= i < w@.len() && value_eq(x, #[trigger] w@[i]);
                        assert(value_eq(x, v@[i]));
                    }
                }
            }
        },
        (Filter::And(x), Filter::And(y)) => {
            assert forall|i: int| 0 <= i < x@.len() implies (#[trigger] x@[i]).admits(record)
                == y@[i].admits(record) by {
                assert(filter_eq(x@[i], y@[i]));
                lemma_equal_filters_admit_alike(x@[i], y@[i], record);
            }
            if a.admits(record) {
                assert forall|j: int| 0 <= j < y@.len() implies (#[trigger] y@[j]).admits(record) by {
                    assert(x@[j].admits(record));
                }
            }
            if b.admits(record) {
                assert forall|j: int| 0 <= j < x@.len() implies (#[trigger] x@[j]).admits(record) by {
                    assert(y@[j].admits(record));
                }
            }
        },
        (Filter::Or(x), Filter::Or(y)) => {
            assert forall|i: int| 0 <= i < x@.len() implies (#[trigger] x@[i]).admits(record)
                == y@[i].admits(record) by {
                assert(filter_eq(x@[i], y@[i]));
                lemma_equal_filters_admit_alike(x@[i], y@[i], record);
            }
            if exists|i: int| 0 <= i < y@.len() && (#[trigger] y@[i]).admits(record) {
                let i = choose|i: int| 0 <= i < y@.len() && (#[trigger] y@[i]).admits(record);
                assert(x@[i].admits(record));
            }
        },
        (Filter::Not(x), Filter::Not(y)) => {
            lemma_equal_filters_admit_alike(*x, *y, record);
        },
        _ => {},
    }
}

} // verus!
