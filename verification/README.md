# iqdb-types

The shared vocabulary of the iqdb vector-database family — vectors, ids,
metadata, metrics, filters, search parameters, hits and the domain error —
written in Verus. Each operation has a contract that is proved. The proofs
rest on a few trusted specifications of std (`Vec::into_boxed_slice`,
`BTreeMap::into_iter`, `String::from(&str)`), and collecting an arbitrary
iterator into `Metadata` (`FromIterator`) is trusted glue with no contract:
it folds the pairs through the verified `Metadata::add_pair`.

## Layout

- `src/` — the verified library.
  - `vector.rs`: `Vector` (validated: non-empty, all components finite) and
    the non-validating view `VectorRef`.
  - `id.rs`: `VectorId` and its operator-facing rendering.
  - `metadata.rs`: `Value` and `Metadata`, an immutable map kept as entries
    sorted by key and searched by binary search.
  - `filter.rs`: `Filter`, with its meaning (`Filter::admits`) and the rules
    of that meaning (closed world, empty `And`/`Or`, `Neq` versus `Not(Eq)`,
    NaN, kind mismatches) as lemmas.
  - `search.rs`, `hit.rs`, `metric.rs`, `error.rs`: `SearchParams`, `Hit`,
    `DistanceMetric`, `IqdbError`.
  - `ieee.rs`: IEEE-754 classification, equality and order on bit patterns.
  - `keys.rs`: the byte order of keys, proved a strict total order.
  - `render.rs`: decimal and lowercase-hex text, proved to read back.
- `app/` — what the library cannot hold: `Display`, `std::error::Error` and
  `error_forge::ForgeError` for the error; `serde` copies of the public
  types; the `f32`/`f64` face of the float-carrying types.
- `tests/` — the test suite.

## Floats

The library never computes in floating point. An `f32` or `f64` is carried
as its bit pattern (`u32` / `u64`): `Vector` components, `Hit::distance`,
`Value::Float`. Finiteness, equality (NaN unequal to itself, `+0.0 == -0.0`)
and order are defined on those bits. Use `f32::to_bits` / `f64::to_bits` to
hand values in, or the helpers in `app/floats.rs`.
