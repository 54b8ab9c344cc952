//! Scalar metadata attached to a stored vector.
//!
//! [`Metadata`] is an immutable, ordered map from string keys to scalar
//! [`Value`]s. It carries the structured attributes a query filters on (an
//! author, a timestamp encoded as an integer, a published flag). Construct it
//! once from its pairs; it has no in-place mutators.
//!
//! The map is held as a vector of entries sorted strictly by key (the order of
//! [`crate::keys`]), so each key occurs once, iteration is in key order, and a
//! key is found by binary search.

use vstd::prelude::*;
use vstd::std_specs::cmp::PartialEqSpecImpl;
use vstd::std_specs::convert::FromSpecImpl;
use vstd::std_specs::iter::IteratorSpec;

use std::collections::BTreeMap;

use crate::ieee::{f64_bits_eq, f64_eq, f64_is_nan, lemma_f64_eq_by_mask};
use crate::keys::{compare_keys, key_lt, lemma_key_order, KeyOrder};

verus! {

/// A scalar metadata value.
///
/// A closed set of JSON-like scalars. It deliberately has no nesting — metadata
/// is a flat map of scalars, which keeps filtering simple and predictable. A
/// `Float` holds the bit pattern of an `f64`; equality on it is IEEE equality,
/// so `Value` is [`PartialEq`] but not [`Eq`]: a NaN float is not equal to
/// itself.
#[derive(Debug)]
pub enum Value {
    /// A UTF-8 string value.
    String(String),
    /// A signed 64-bit integer value.
    Int(i64),
    /// A 64-bit floating-point value, as the bit pattern of its `f64`.
    Float(u64),
    /// A boolean value.
    Bool(bool),
    /// The absence of a value.
    Null,
}

/// Equality of values: the same kind and the same content, with IEEE
/// equality for floats. Values of different kinds are never equal.
pub open spec fn value_eq(a: Value, b: Value) -> bool {
    match (a, b) {
        (Value::String(x), Value::String(y)) => x@ == y@,
        (Value::Int(x), Value::Int(y)) => x == y,
        (Value::Float(x), Value::Float(y)) => f64_eq(x, y),
        (Value::Bool(x), Value::Bool(y)) => x == y,
        (Value::Null, Value::Null) => true,
        _ => false,
    }
}

/// The kind of a value: which variant it is.
pub open spec fn value_kind(v: Value) -> nat {
    match v {
        Value::String(_) => 0,
        Value::Int(_) => 1,
        Value::Float(_) => 2,
        Value::Bool(_) => 3,
        Value::Null => 4,
    }
}

/// Equality of values: values of different kinds are never equal; it is
/// symmetric; and a value equals itself unless it is a NaN float.
pub proof fn lemma_value_eq(a: Value, b: Value)
    ensures
        value_kind(a) != value_kind(b) ==> !value_eq(a, b),
        value_eq(a, b) == value_eq(b, a),
        value_eq(a, a) <==> !(a matches Value::Float(x) && f64_is_nan(x)),
{
}

impl PartialEq for Value {
    fn eq(&self, other: &Self) -> (r: bool) {
        match (self, other) {
            (Value::String(x), Value::String(y)) => *x == *y,
            (Value::Int(x), Value::Int(y)) => *x == *y,
            (Value::Float(x), Value::Float(y)) => f64_bits_eq(*x, *y),
            (Value::Bool(x), Value::Bool(y)) => *x == *y,
            (Value::Null, Value::Null) => true,
            _ => false,
        }
    }
}

impl PartialEqSpecImpl for Value {
    open spec fn obeys_eq_spec() -> bool {
        true
    }

    open spec fn eq_spec(&self, other: &Self) -> bool {
        value_eq(*self, *other)
    }
}

impl Clone for Value {
    fn clone(&self) -> (c: Self)
        ensures
            c == *self,
    {
        match self {
            Value::String(s) => Value::String(s.clone()),
            Value::Int(i) => Value::Int(*i),
            Value::Float(f) => Value::Float(*f),
            Value::Bool(b) => Value::Bool(*b),
            Value::Null => Value::Null,
        }
    }
}

/// The value paired with `key` by the last pair that has it, if any: what a
/// map built by inserting `pairs` in order holds for `key`.
pub open spec fn lookup(pairs: Seq<(String, Value)>, key: Seq<char>) -> Option<Value>
    decreases pairs.len(),
{
    if pairs.len() == 0 {
        None
    } else if pairs.last().0@ == key {
        Some(pairs.last().1)
    } else {
        lookup(pairs.drop_last(), key)
    }
}

/// The keys of `pairs`, as character sequences, in order.
pub open spec fn keys_of(pairs: Seq<(String, Value)>) -> Seq<Seq<char>> {
    pairs.map_values(|p: (String, Value)| p.0@)
}

/// The entries are strictly increasing by key, so no key occurs twice.
pub open spec fn sorted_by_key(entries: Seq<(String, Value)>) -> bool {
    forall|i: int, j: int|
        0 <= i < j < entries.len() ==> #[trigger] key_lt(entries[i].0@, entries[j].0@)
}

/// Two metadata maps are equal when they hold the same keys in the same order
/// with equal values.
pub open spec fn entries_eq(a: Seq<(String, Value)>, b: Seq<(String, Value)>) -> bool {
    a.len() == b.len() && forall|i: int|
        #![trigger a[i]]
        0 <= i < a.len() ==> a[i].0@ == b[i].0@ && value_eq(a[i].1, b[i].1)
}

/// In sorted entries, the lookup of a key is the value of the one entry that
/// carries it.
proof fn lemma_lookup_sorted(entries: Seq<(String, Value)>, key: Seq<char>)
    requires
        sorted_by_key(entries),
    ensures
        forall|i: int|
            0 <= i < entries.len() && entries[i].0@ == key ==> lookup(entries, key) == Some(
                #[trigger] entries[i].1,
            ),
        (forall|i: int| 0 <= i < entries.len() ==> #[trigger] entries[i].0@ != key) ==> lookup(
            entries,
            key,
        ) is None,
    decreases entries.len(),
{
    if entries.len() > 0 {
        let rest = entries.drop_last();
        assert(sorted_by_key(rest)) by {
            assert forall|i: int, j: int| 0 <= i < j < rest.len() implies #[trigger] key_lt(
                rest[i].0@,
                rest[j].0@,
            ) by {
                assert(key_lt(entries[i].0@, entries[j].0@));
            }
        }
        lemma_lookup_sorted(rest, key);
        assert forall|i: int|
            0 <= i < entries.len() && entries[i].0@ == key implies lookup(entries, key) == Some(
            #[trigger] entries[i].1,
        ) by {
            if i < entries.len() - 1 {
                let last = entries.len() - 1;
                assert(key_lt(entries[i].0@, entries[last].0@));
                lemma_key_order(entries[i].0@, entries[last].0@, entries[last].0@);
                assert(rest[i] == entries[i]);
            }
        }
        if forall|i: int| 0 <= i < entries.len() ==> #[trigger] entries[i].0@ != key {
            assert(entries[entries.len() - 1].0@ != key);
            assert forall|i: int| 0 <= i < rest.len() implies #[trigger] rest[i].0@ != key by {
                assert(rest[i] == entries[i]);
                assert(entries[i].0@ != key);
            }
        }
    }
}

/// `r` says where `key` is in sorted `entries`, or where it would go: `Ok(i)`
/// when entry `i` has the key; `Err(i)` when every entry before `i` has a
/// smaller key and every entry from `i` on a greater one.
pub open spec fn search_result(
    entries: Seq<(String, Value)>,
    key: Seq<char>,
    r: core::result::Result<usize, usize>,
) -> bool {
    match r {
        Ok(i) => i < entries.len() && entries[i as int].0@ == key,
        Err(i) => i <= entries.len() && (forall|j: int|
            0 <= j < i ==> #[trigger] key_lt(entries[j].0@, key)) && (forall|j: int|
            i <= j < entries.len() ==> #[trigger] key_lt(key, entries[j].0@)),
    }
}

/// Binary search for `key` in entries sorted by key.
fn search_entries(entries: &Vec<(String, Value)>, key: &str) -> (r: core::result::Result<
    usize,
    usize,
>)
    requires
        sorted_by_key(entries@),
    ensures
        search_result(entries@, key@, r),
{
    let mut lo: usize = 0;
    let mut hi: usize = entries.len();
    while lo < hi
        invariant
            sorted_by_key(entries@),
            lo <= hi <= entries@.len(),
            forall|j: int| 0 <= j < lo ==> #[trigger] key_lt(entries@[j].0@, key@),
            forall|j: int| hi <= j < entries@.len() ==> #[trigger] key_lt(key@, entries@[j].0@),
        decreases hi - lo,
    {
        let mid = lo + (hi - lo) / 2;
        match compare_keys(entries[mid].0.as_str(), key) {
            KeyOrder::Equal => {
                return Ok(mid);
            },
            KeyOrder::Less => {
                proof {
                    assert forall|j: int| 0 <= j < mid + 1 implies #[trigger] key_lt(
                        entries@[j].0@,
                        key@,
                    ) by {
                        if j < mid {
                            assert(key_lt(entries@[j].0@, entries@[mid as int].0@));
                            lemma_key_order(entries@[j].0@, entries@[mid as int].0@, key@);
                        }
                    }
                }
                lo = mid + 1;
            },
            KeyOrder::Greater => {
                proof {
                    assert forall|j: int| mid <= j < entries@.len() implies #[trigger] key_lt(
                        key@,
                        entries@[j].0@,
                    ) by {
                        if j > mid {
                            assert(key_lt(entries@[mid as int].0@, entries@[j].0@));
                            lemma_key_order(key@, entries@[mid as int].0@, entries@[j].0@);
                        }
                    }
                }
                hi = mid;
            },
        }
    }
    Err(lo)
}

/// The lookup of `key` is some value exactly when some pair has `key`.
pub proof fn lemma_lookup_some_iff_present(pairs: Seq<(String, Value)>, key: Seq<char>)
    ensures
        lookup(pairs, key) is Some <==> keys_of(pairs).contains(key),
    decreases pairs.len(),
{
    if pairs.len() == 0 {
        assert(keys_of(pairs).len() == 0);
    } else {
        let rest = pairs.drop_last();
        lemma_lookup_some_iff_present(rest, key);
        assert(keys_of(pairs) =~= keys_of(rest).push(pairs.last().0@));
        if keys_of(rest).contains(key) {
            let j = choose|j: int| 0 <= j < keys_of(rest).len() && keys_of(rest)[j] == key;
            assert(keys_of(pairs)[j] == key);
        }
        if pairs.last().0@ == key {
            assert(keys_of(pairs)[pairs.len() - 1] == key);
        }
        if keys_of(pairs).contains(key) && pairs.last().0@ != key {
            let j = choose|j: int| 0 <= j < keys_of(pairs).len() && keys_of(pairs)[j] == key;
            assert(j < pairs.len() - 1);
            assert(keys_of(rest)[j] == key);
        }
    }
}

/// Overwriting the value of the entry that has `key` keeps the entries
/// sorted, and changes the lookup of `key` alone.
proof fn lemma_replace_at(
    before: Seq<(String, Value)>,
    i: int,
    key: String,
    value: Value,
)
    requires
        sorted_by_key(before),
        0 <= i < before.len(),
        before[i].0@ == key@,
    ensures
        sorted_by_key(before.update(i, (key, value))),
        forall|k: Seq<char>|
            #[trigger] lookup(before.update(i, (key, value)), k) == if k == key@ {
                Some(value)
            } else {
                lookup(before, k)
            },
{
    let after = before.update(i, (key, value));
    assert forall|a: int, b: int| 0 <= a < b < after.len() implies #[trigger] key_lt(
        after[a].0@,
        after[b].0@,
    ) by {
        assert(key_lt(before[a].0@, before[b].0@));
    }
    assert forall|k: Seq<char>| #[trigger] lookup(after, k) == if k == key@ {
        Some(value)
    } else {
        lookup(before, k)
    } by {
        lemma_lookup_sorted(before, k);
        lemma_lookup_sorted(after, k);
        if k == key@ {
            assert(after[i].0@ == k);
            assert(lookup(after, k) == Some(after[i].1));
        } else if exists|j: int| 0 <= j < before.len() && #[trigger] before[j].0@ == k {
            let j = choose|j: int| 0 <= j < before.len() && #[trigger] before[j].0@ == k;
            assert(after[j] == before[j]);
            assert(lookup(before, k) == Some(before[j].1));
            assert(lookup(after, k) == Some(after[j].1));
        } else {
            assert forall|j: int| 0 <= j < before.len() implies #[trigger] before[j].0@ != k by {}
            assert forall|j: int| 0 <= j < after.len() implies #[trigger] after[j].0@ != k by {
                if j != i {
                    assert(after[j] == before[j]);
                }
            }
        }
    }
}

/// Inserting a new entry at the position where its key belongs keeps the
/// entries sorted, and changes the lookup of that key alone.
proof fn lemma_insert_at(
    before: Seq<(String, Value)>,
    i: int,
    key: String,
    value: Value,
)
    requires
        sorted_by_key(before),
        0 <= i <= before.len(),
        forall|j: int| 0 <= j < i ==> #[trigger] key_lt(before[j].0@, key@),
        forall|j: int| i <= j < before.len() ==> #[trigger] key_lt(key@, before[j].0@),
    ensures
        sorted_by_key(before.insert(i, (key, value))),
        forall|k: Seq<char>|
            #[trigger] lookup(before.insert(i, (key, value)), k) == if k == key@ {
                Some(value)
            } else {
                lookup(before, k)
            },
{
    let after = before.insert(i, (key, value));
    assert forall|a: int, b: int| 0 <= a < b < after.len() implies #[trigger] key_lt(
        after[a].0@,
        after[b].0@,
    ) by {
        if b < i {
            assert(key_lt(before[a].0@, before[b].0@));
        } else if b == i {
            assert(key_lt(before[a].0@, key@));
        } else if a < i {
            assert(key_lt(before[a].0@, before[b - 1].0@));
        } else if a == i {
            assert(key_lt(key@, before[b - 1].0@));
        } else {
            assert(key_lt(before[a - 1].0@, before[b - 1].0@));
        }
    }
    assert forall|k: Seq<char>| #[trigger] lookup(after, k) == if k == key@ {
        Some(value)
    } else {
        lookup(before, k)
    } by {
        lemma_lookup_sorted(before, k);
        lemma_lookup_sorted(after, k);
        if k == key@ {
            assert(after[i].0@ == k);
            assert(lookup(after, k) == Some(after[i].1));
        } else if exists|j: int| 0 <= j < before.len() && #[trigger] before[j].0@ == k {
            let j = choose|j: int| 0 <= j < before.len() && #[trigger] before[j].0@ == k;
            assert(lookup(before, k) == Some(before[j].1));
            if j < i {
                assert(after[j] == before[j]);
                assert(lookup(after, k) == Some(after[j].1));
            } else {
                assert(after[j + 1] == before[j]);
                assert(lookup(after, k) == Some(after[j + 1].1));
            }
        } else {
            assert forall|j: int| 0 <= j < before.len() implies #[trigger] before[j].0@ != k by {}
            assert forall|j: int| 0 <= j < after.len() implies #[trigger] after[j].0@ != k by {
                if j < i {
                    assert(after[j] == before[j]);
                } else if j > i {
                    assert(after[j] == before[j - 1]);
                }
            }
        }
    }
}

/// Inserts `value` under `key` into entries sorted by key, replacing the
/// entry that already has the key, if any.
fn insert_entry(entries: &mut Vec<(String, Value)>, key: String, value: Value)
    requires
        sorted_by_key(old(entries)@),
    ensures
        sorted_by_key(final(entries)@),
        forall|k: Seq<char>|
            #[trigger] lookup(final(entries)@, k) == if k == key@ {
                Some(value)
            } else {
                lookup(old(entries)@, k)
            },
{
    match search_entries(entries, key.as_str()) {
        Ok(i) => {
            proof {
                lemma_replace_at(entries@, i as int, key, value);
            }
            entries.set(i, (key, value));
        },
        Err(i) => {
            proof {
                lemma_insert_at(entries@, i as int, key, value);
            }
            entries.insert(i, (key, value));
        },
    }
}

/// Sorted entries that look up every key as `pairs` does hold exactly the
/// keys of `pairs`, once each.
proof fn lemma_keys_match(entries: Seq<(String, Value)>, pairs: Seq<(String, Value)>)
    requires
        sorted_by_key(entries),
        forall|k: Seq<char>| #[trigger] lookup(entries, k) == lookup(pairs, k),
    ensures
        keys_of(entries).to_set() == keys_of(pairs).to_set(),
        entries.len() == keys_of(pairs).to_set().len(),
{
    assert forall|k: Seq<char>| #[trigger] keys_of(entries).to_set().contains(k)
        == keys_of(pairs).to_set().contains(k) by {
        lemma_lookup_some_iff_present(entries, k);
        lemma_lookup_some_iff_present(pairs, k);
    }
    assert(keys_of(entries).to_set() =~= keys_of(pairs).to_set());
    lemma_sorted_keys_distinct(entries);
}

/// Sorted entries carry distinct keys: as many keys as entries.
proof fn lemma_sorted_keys_distinct(entries: Seq<(String, Value)>)
    requires
        sorted_by_key(entries),
    ensures
        keys_of(entries).no_duplicates(),
        keys_of(entries).to_set().len() == entries.len(),
{
    assert forall|a: int, b: int|
        0 <= a < keys_of(entries).len() && 0 <= b < keys_of(entries).len() && a != b
        implies keys_of(entries)[a] != keys_of(entries)[b] by {
        if a < b {
            assert(key_lt(entries[a].0@, entries[b].0@));
        } else {
            assert(key_lt(entries[b].0@, entries[a].0@));
        }
        lemma_key_order(entries[a].0@, entries[b].0@, entries[b].0@);
        lemma_key_order(entries[b].0@, entries[a].0@, entries[a].0@);
    }
    keys_of(entries).unique_seq_to_set();
}

/// An immutable, ordered map of metadata keys to [`Value`]s.
///
/// Build one from its pairs with [`from_pairs`](Metadata::from_pairs) (a
/// later pair for a key overwrites an earlier one). Read it with
/// [`get`](Metadata::get), [`len`](Metadata::len),
/// [`is_empty`](Metadata::is_empty), and [`iter`](Metadata::iter). There are
/// no setters — to change metadata, build a new value.
#[derive(Debug)]
pub struct Metadata {
    entries: Vec<(String, Value)>,
}

impl View for Metadata {
    type V = Seq<(String, Value)>;

    /// The entries, in key order.
    closed spec fn view(&self) -> Seq<(String, Value)> {
        self.entries@
    }
}

impl Metadata {
    #[verifier::type_invariant]
    closed spec fn inv(self) -> bool {
        sorted_by_key(self.entries@)
    }

    /// Where `key` is, or where it would go (see [`search_entries`]).
    fn search(&self, key: &str) -> (r: core::result::Result<usize, usize>)
        ensures
            search_result(self@, key@, r),
    {
        proof {
            use_type_invariant(self);
        }
        search_entries(&self.entries, key)
    }

    /// Builds metadata from `(key, value)` pairs, in order: a later pair for
    /// a key overwrites an earlier one, so each key keeps the value of the
    /// last pair that names it, and the map holds one entry per distinct key.
    pub fn from_pairs(pairs: Vec<(String, Value)>) -> (m: Metadata)
        ensures
            forall|k: Seq<char>| #[trigger] lookup(m@, k) == lookup(pairs@, k),
            keys_of(m@).to_set() == keys_of(pairs@).to_set(),
            m@.len() == keys_of(pairs@).to_set().len(),
    {
        let ghost all = pairs@;
        let mut entries: Vec<(String, Value)> = Vec::new();
        for pair in it: pairs
            invariant
                it.seq() == all,
                sorted_by_key(entries@),
                forall|k: Seq<char>|
                    #[trigger] lookup(entries@, k) == lookup(all.take(it.index() as int), k),
        {
            let ghost done = all.take(it.index() as int);
            proof {
                assert(all.take(it.index() + 1).drop_last() =~= done);
            }
            insert_entry(&mut entries, pair.0, pair.1);
        }
        proof {
            assert(all.take(all.len() as int) =~= all);
        }
        let m = Metadata { entries };
        proof {
            lemma_keys_match(m@, all);
        }
        m
    }

    /// Returns the value for `key`, or `None` if the key is absent.
    pub fn get(&self, key: &str) -> (r: Option<&Value>)
        ensures
            match r {
                Some(v) => lookup(self@, key@) == Some(*v),
                None => lookup(self@, key@) is None,
            },
    {
        proof {
            use_type_invariant(self);
            lemma_lookup_sorted(self@, key@);
        }
        match self.search(key) {
            Ok(i) => Some(&self.entries[i].1),
            Err(i) => {
                proof {
                    assert forall|j: int| 0 <= j < self@.len() implies #[trigger] self@[j].0@
                        != key@ by {
                        if j < i {
                            assert(key_lt(self@[j].0@, key@));
                        } else {
                            assert(key_lt(key@, self@[j].0@));
                        }
                        lemma_key_order(self@[j].0@, key@, key@);
                        lemma_key_order(key@, key@, key@);
                    }
                }
                None
            },
        }
    }

    /// Returns the number of entries (each key counts once).
    pub fn len(&self) -> (n: usize)
        ensures
            n == self@.len(),
    {
        self.entries.len()
    }

    /// Returns `true` if there are no entries.
    pub fn is_empty(&self) -> (b: bool)
        ensures
            b == (self@.len() == 0),
    {
        self.entries.len() == 0
    }

    /// Returns an iterator over the entries in key order.
    pub fn iter(&self) -> (it: std::slice::Iter<'_, (String, Value)>)
        ensures
            it.remaining() == self@.as_ref(),
            sorted_by_key(self@),
    {
        proof {
            use_type_invariant(self);
        }
        self.entries.iter()
    }
}

impl Default for Metadata {
    /// Empty metadata.
    fn default() -> (m: Self)
        ensures
            m@.len() == 0,
    {
        Metadata { entries: Vec::new() }
    }
}

impl Clone for Metadata {
    fn clone(&self) -> (c: Self)
        ensures
            c@ == self@,
    {
        proof {
            use_type_invariant(self);
        }
        let n = self.entries.len();
        let mut entries: Vec<(String, Value)> = Vec::new();
        let mut i: usize = 0;
        while i < n
            invariant
                n == self@.len(),
                i <= n,
                entries@ =~= self@.take(i as int),
            decreases n - i,
        {
            let key = self.entries[i].0.clone();
            let value = self.entries[i].1.clone();
            entries.push((key, value));
            i = i + 1;
        }
        Metadata { entries }
    }
}

/// Compares two entry sequences: same keys in the same order, equal values.
fn entries_equal(a: &Vec<(String, Value)>, b: &Vec<(String, Value)>) -> (r: bool)
    ensures
        r == entries_eq(a@, b@),
{
    let n = a.len();
    if n != b.len() {
        return false;
    }
    let mut i: usize = 0;
    while i < n
        invariant
            n == a@.len(),
            n == b@.len(),
            i <= n,
            forall|j: int|
                #![trigger a@[j]]
                0 <= j < i ==> a@[j].0@ == b@[j].0@ && value_eq(a@[j].1, b@[j].1),
        decreases n - i,
    {
        let same_key = a[i].0 == b[i].0;
        let same_value = a[i].1 == b[i].1;
        if !same_key || !same_value {
            return false;
        }
        i = i + 1;
    }
    true
}

impl PartialEq for Metadata {
    fn eq(&self, other: &Self) -> (r: bool) {
        entries_equal(&self.entries, &other.entries)
    }
}

impl PartialEqSpecImpl for Metadata {
    open spec fn obeys_eq_spec() -> bool {
        true
    }

    open spec fn eq_spec(&self, other: &Self) -> bool {
        entries_eq(self@, other@)
    }
}

/// What a map holds once a pair is added to `acc` (or to an empty map when
/// there is no `acc`): the pair's value under its key, every other key as
/// before.
pub open spec fn added(acc: Option<Metadata>, pair: (String, Value), k: Seq<char>) -> Option<Value> {
    if k == pair.0@ {
        Some(pair.1)
    } else {
        match acc {
            Some(m) => lookup(m@, k),
            None => None,
        }
    }
}

impl Metadata {
    /// Adds one pair to `acc` (or to an empty map when there is none),
    /// overwriting the value of its key: one step of building metadata from
    /// pairs in order.
    fn add_pair(acc: Option<Metadata>, pair: (String, Value)) -> (m: Metadata)
        ensures
            forall|k: Seq<char>| #[trigger] lookup(m@, k) == added(acc, pair, k),
    {
        let mut entries = match acc {
            Some(m) => {
                proof {
                    use_type_invariant(&m);
                }
                m.entries
            },
            None => Vec::new(),
        };
        let (key, value) = pair;
        insert_entry(&mut entries, key, value);
        Metadata { entries }
    }
}

impl FromIterator<(String, Value)> for Metadata {
    /// Adds the pairs in the order the iterator yields them, a later pair
    /// for a key overwriting an earlier one, as [`Metadata::from_pairs`]
    /// does.
    ///
    /// Trusted: the body folds the generic iterator with std's
    /// `IntoIterator::into_iter` and `Iterator::fold`, handing each pair to
    /// the verified `add_pair`, and ends with `Option::unwrap_or_default`
    /// for an iterator with no pairs. The items of a generic iterator have
    /// no model here, so nothing is stated of the result; each step is the
    /// contract of `add_pair`.
    #[verifier::external_body]
    fn from_iter<I: IntoIterator<Item = (String, Value)>>(iter: I) -> Self {
        iter.into_iter()
            .fold(None, |acc, pair| Some(Metadata::add_pair(acc, pair)))
            .unwrap_or_default()
    }
}

/// The lookup of a key, when some, is the value of a pair that has the key.
proof fn lemma_lookup_some_witness(pairs: Seq<(String, Value)>, key: Seq<char>)
    ensures
        lookup(pairs, key) matches Some(v) ==> exists|i: int|
            0 <= i < pairs.len() && #[trigger] pairs[i].0@ == key && pairs[i].1 == v,
    decreases pairs.len(),
{
    if pairs.len() > 0 {
        let rest = pairs.drop_last();
        lemma_lookup_some_witness(rest, key);
        if pairs.last().0@ != key {
            if let Some(v) = lookup(rest, key) {
                let i = choose|i: int| 0 <= i < rest.len() && #[trigger] rest[i].0@ == key && rest[i].1 == v;
                assert(pairs[i] == rest[i]);
            }
        } else {
            assert(pairs[pairs.len() - 1].0@ == key);
        }
    }
}

/// The entries of a map built from `map` are exactly those of `map`: as many
/// entries as `map` has, each key of `map` looked up to its own value, and
/// no key that `map` does not have.
pub open spec fn holds_map(entries: Seq<(String, Value)>, map: Map<String, Value>) -> bool {
    &&& entries.len() == map.len()
    &&& forall|k: String| #[trigger] map.contains_key(k) ==> lookup(entries, k@) == Some(map[k])
    &&& forall|k: Seq<char>|
        #[trigger] lookup(entries, k) is Some ==> exists|s: String|
            #[trigger] map.contains_key(s) && s@ == k
}

/// Moves the entries of a `BTreeMap` into a vector.
///
/// Trusted: calls `BTreeMap::into_iter` and collects it. std documents this
/// consuming iterator as yielding every key-value pair of the map once,
/// sorted by key; `String` keys are ordered lexicographically by their
/// bytes, which is [`key_lt`] on their text.
#[verifier::external_body]
fn btree_entries(map: BTreeMap<String, Value>) -> (r: Vec<(String, Value)>)
    ensures
        r@.len() == map@.len(),
        sorted_by_key(r@),
        forall|i: int|
            0 <= i < r@.len() ==> map@.contains_key(#[trigger] r@[i].0) && map@[r@[i].0]
                == r@[i].1,
        forall|k: String| #[trigger] map@.contains_key(k) ==> exists|i: int|
            0 <= i < r@.len() && #[trigger] r@[i].0 == k,
{
    map.into_iter().collect()
}

impl From<BTreeMap<String, Value>> for Metadata {
    /// Takes the entries of an ordered map: the result holds exactly the
    /// map's entries.
    fn from(map: BTreeMap<String, Value>) -> (m: Self)
        ensures
            holds_map(m@, map@),
    {
        let ghost map_view = map@;
        let pairs = btree_entries(map);
        let m = Metadata::from_pairs(pairs);
        proof {
            lemma_sorted_keys_distinct(pairs@);
            assert forall|k: String| #[trigger] map_view.contains_key(k) implies lookup(m@, k@)
                == Some(map_view[k]) by {
                let i = choose|i: int| 0 <= i < pairs@.len() && #[trigger] pairs@[i].0 == k;
                lemma_lookup_sorted(pairs@, k@);
                assert(lookup(pairs@, k@) == Some(pairs@[i].1));
            }
            assert forall|k: Seq<char>| #[trigger] lookup(m@, k) is Some implies exists|s: String|
                #[trigger] map_view.contains_key(s) && s@ == k by {
                lemma_lookup_some_witness(pairs@, k);
                let v = lookup(pairs@, k)->Some_0;
                let i = choose|i: int|
                    0 <= i < pairs@.len() && #[trigger] pairs@[i].0@ == k && pairs@[i].1 == v;
                assert(map_view.contains_key(pairs@[i].0));
            }
        }
        m
    }
}

impl FromSpecImpl<BTreeMap<String, Value>> for Metadata {
    /// The result is pinned by the `ensures` of `from` ([`holds_map`]), not
    /// by a single value.
    open spec fn obeys_from_spec() -> bool {
        false
    }

    open spec fn from_spec(v: BTreeMap<String, Value>) -> Self {
        choose|m: Metadata| holds_map(m@, v@)
    }
}

/// Equality of values compares contents: integers and booleans by value,
/// strings by their text, floats by IEEE equality read off the bits (no NaN,
/// and identical bits or both zeros), `Null` with `Null`; values of
/// different kinds never compare equal.
pub proof fn lemma_value_eq_by_content(a: Value, b: Value)
    ensures
        match (a, b) {
            (Value::Int(x), Value::Int(y)) => value_eq(a, b) <==> x == y,
            (Value::Bool(x), Value::Bool(y)) => value_eq(a, b) <==> x == y,
            (Value::String(x), Value::String(y)) => value_eq(a, b) <==> x@ == y@,
            (Value::Float(x), Value::Float(y)) => value_eq(a, b) <==> ({
                &&& !((x & 0x7ff0_0000_0000_0000u64) == 0x7ff0_0000_0000_0000u64 && (x
                    & 0x000f_ffff_ffff_ffffu64) != 0)
                &&& !((y & 0x7ff0_0000_0000_0000u64) == 0x7ff0_0000_0000_0000u64 && (y
                    & 0x000f_ffff_ffff_ffffu64) != 0)
                &&& (x == y || ((x & 0x7fff_ffff_ffff_ffffu64) == 0 && (y
                    & 0x7fff_ffff_ffff_ffffu64) == 0))
            }),
            (Value::Null, Value::Null) => value_eq(a, b),
            _ => !value_eq(a, b),
        },
{
    if let (Value::Float(x), Value::Float(y)) = (a, b) {
        lemma_f64_eq_by_mask(x, y);
    }
}

/// Equal metadata answers every lookup alike: for each key, both maps lack
/// it, or both hold it with equal values. So maps that differ in the value
/// under some key compare unequal.
pub proof fn lemma_equal_entries_look_up_alike(a: Seq<(String, Value)>, b: Seq<(String, Value)>)
    requires
        entries_eq(a, b),
    ensures
        forall|k: Seq<char>|
            match (#[trigger] lookup(a, k), lookup(b, k)) {
                (None, None) => true,
                (Some(x), Some(y)) => value_eq(x, y),
                _ => false,
            },
    decreases a.len(),
{
    if a.len() > 0 {
        let ra = a.drop_last();
        let rb = b.drop_last();
        assert(entries_eq(ra, rb)) by {
            assert forall|i: int| #![trigger ra[i]] 0 <= i < ra.len() implies ra[i].0@ == rb[i].0@
                && value_eq(ra[i].1, rb[i].1) by {
                assert(ra[i] == a[i]);
                assert(rb[i] == b[i]);
            }
        }
        lemma_equal_entries_look_up_alike(ra, rb);
        assert(a[a.len() - 1].0@ == b[b.len() - 1].0@ && value_eq(
            a[a.len() - 1].1,
            b[b.len() - 1].1,
        ));
        assert forall|k: Seq<char>|
            match (#[trigger] lookup(a, k), lookup(b, k)) {
                (None, None) => true,
                (Some(x), Some(y)) => value_eq(x, y),
                _ => false,
            } by {
            assert(match (lookup(ra, k), lookup(rb, k)) {
                (None, None) => true,
                (Some(x), Some(y)) => value_eq(x, y),
                _ => false,
            });
        }
    }
}

/// Two metadata maps that compare equal give the same answer to every
/// `get`, up to value equality.
pub proof fn lemma_equal_metadata_gets_alike(m1: Metadata, m2: Metadata)
    requires
        entries_eq(m1@, m2@),
    ensures
        forall|k: Seq<char>|
            match (#[trigger] lookup(m1@, k), lookup(m2@, k)) {
                (None, None) => true,
                (Some(x), Some(y)) => value_eq(x, y),
                _ => false,
            },
{
    lemma_equal_entries_look_up_alike(m1@, m2@);
}

} // verus!
