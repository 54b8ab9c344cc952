//! Concrete checks of the library's stated rules: IEEE equality on bit
//! patterns, key order, last-wins metadata construction, exact messages and
//! renderings, and clones that compare equal.

use std::collections::BTreeMap;

use iqdb_types::{
    DistanceMetric, Filter, Hit, IqdbError, Metadata, SearchParams, Value, Vector, VectorId,
    VectorRef,
};

fn bits(data: &[f32]) -> Vec<u32> {
    data.iter().map(|x| x.to_bits()).collect()
}

fn meta(pairs: &[(&str, Value)]) -> Metadata {
    Metadata::from_pairs(pairs.iter().map(|(k, v)| ((*k).to_string(), v.clone())).collect())
}

#[test]
fn float_values_compare_by_ieee_equality() {
    assert_eq!(Value::Float(0.0f64.to_bits()), Value::Float((-0.0f64).to_bits()));
    assert_eq!(Value::Float(1.5f64.to_bits()), Value::Float(1.5f64.to_bits()));
    assert_ne!(Value::Float(1.5f64.to_bits()), Value::Float(2.5f64.to_bits()));
    assert_ne!(Value::Float(f64::NAN.to_bits()), Value::Float(f64::NAN.to_bits()));
    assert_eq!(
        Value::Float(f64::INFINITY.to_bits()),
        Value::Float(f64::INFINITY.to_bits())
    );
}

#[test]
fn vectors_compare_componentwise_by_ieee_equality() {
    let a = Vector::new(bits(&[0.0, 1.0])).unwrap();
    let b = Vector::new(bits(&[-0.0, 1.0])).unwrap();
    let c = Vector::new(bits(&[0.0, 2.0])).unwrap();
    let d = Vector::new(bits(&[0.0])).unwrap();
    assert_eq!(a, b);
    assert_ne!(a, c);
    assert_ne!(a, d);
    assert_eq!(a.clone(), a);

    let nan = [f32::NAN.to_bits()];
    assert_ne!(VectorRef::from(&nan[..]), VectorRef::from(&nan[..]));
}

#[test]
fn vector_validation_reads_the_exponent_field() {
    // Largest finite, smallest subnormal, infinity, and a quiet NaN.
    assert!(Vector::new(vec![0x7f7f_ffff]).is_ok());
    assert!(Vector::new(vec![0x0000_0001]).is_ok());
    assert_eq!(Vector::new(vec![0x7f80_0000]).unwrap_err(), IqdbError::InvalidVector);
    assert_eq!(Vector::new(vec![0xff80_0000]).unwrap_err(), IqdbError::InvalidVector);
    assert_eq!(
        Vector::new(vec![1, 2, 0xffc0_0000]).unwrap_err(),
        IqdbError::InvalidVector
    );
    let v = Vector::new(vec![1, 2, 3]).unwrap();
    assert_eq!(v.len(), 3);
    assert_eq!(v.as_slice(), &[1, 2, 3]);
    assert_eq!(v.into_inner(), vec![1, 2, 3]);
}

#[test]
fn vector_ref_reports_its_slice() {
    let data = [5u32, 6, 7];
    let r = VectorRef::from(&data[..]);
    assert_eq!(r.len(), 3);
    assert_eq!(r.dim(), 3);
    assert!(!r.is_empty());
    assert_eq!(r.as_slice(), &data[..]);
    assert_eq!(r.into_inner(), &data[..]);
}

#[test]
fn metadata_keeps_the_last_value_and_orders_keys_by_bytes() {
    let m = meta(&[
        ("zeta", Value::Int(1)),
        ("é", Value::Int(2)),
        ("alpha", Value::Int(3)),
        ("zeta", Value::Int(4)),
        ("Beta", Value::Null),
        ("alphabet", Value::Bool(false)),
    ]);
    assert_eq!(m.len(), 5);
    let keys: Vec<&String> = m.iter().map(|(k, _)| k).collect();
    assert_eq!(keys, vec!["Beta", "alpha", "alphabet", "zeta", "é"]);
    assert_eq!(m.get("zeta"), Some(&Value::Int(4)));
    assert_eq!(m.get("é"), Some(&Value::Int(2)));
    assert_eq!(m.get("alph"), None);
    assert_eq!(m.get(""), None);
}

#[test]
fn metadata_finds_every_key_among_many() {
    let pairs: Vec<(String, Value)> = (0..200)
        .rev()
        .map(|i| (format!("key{i:03}"), Value::Int(i)))
        .collect();
    let m = Metadata::from_pairs(pairs);
    assert_eq!(m.len(), 200);
    for i in 0..200 {
        assert_eq!(m.get(&format!("key{i:03}")), Some(&Value::Int(i)));
    }
    assert_eq!(m.get("key200"), None);
    assert_eq!(m.get("key"), None);
}

#[test]
fn metadata_from_btree_map_takes_every_entry() {
    let mut map = BTreeMap::new();
    let _ = map.insert("b".to_string(), Value::Int(2));
    let _ = map.insert("a".to_string(), Value::String("x".to_string()));
    let m = Metadata::from(map);
    assert_eq!(m.len(), 2);
    assert_eq!(m.get("a"), Some(&Value::String("x".to_string())));
    assert_eq!(m.get("b"), Some(&Value::Int(2)));
}

#[test]
fn metadata_equality_and_clone() {
    let a = meta(&[("x", Value::Float(0.0f64.to_bits())), ("y", Value::Int(1))]);
    let b = meta(&[("y", Value::Int(1)), ("x", Value::Float((-0.0f64).to_bits()))]);
    let c = meta(&[("x", Value::Float(0.0f64.to_bits()))]);
    assert_eq!(a, b);
    assert_ne!(a, c);
    assert_eq!(a.clone(), a);
    assert_eq!(Metadata::default(), meta(&[]));
}

#[test]
fn every_error_message_kind_and_caption_is_exact() {
    let cases: Vec<(IqdbError, &str, &str)> = vec![
        (
            IqdbError::DimensionMismatch { expected: 10, found: 0 },
            "vector dimension mismatch: expected 10, found 0",
            "DimensionMismatch",
        ),
        (IqdbError::InvalidVector, "invalid vector", "InvalidVector"),
        (
            IqdbError::InvalidConfig { reason: "r" },
            "invalid configuration: r",
            "InvalidConfig",
        ),
        (IqdbError::NotFound, "not found", "NotFound"),
        (IqdbError::Duplicate, "duplicate id", "Duplicate"),
        (IqdbError::InvalidMetric, "invalid distance metric", "InvalidMetric"),
        (IqdbError::InvalidFilter, "invalid filter", "InvalidFilter"),
        (
            IqdbError::ResourceLimitExceeded { kind: "total_vectors", max: 10, found: 11 },
            "resource limit exceeded: total_vectors max=10 found=11",
            "ResourceLimitExceeded",
        ),
    ];
    for (err, message, kind) in cases {
        assert_eq!(err.to_string(), message);
        assert_eq!(err.kind(), kind);
    }
    assert_eq!(
        IqdbError::InvalidConfig { reason: "x" }.caption(),
        "configuration is not valid for the requested operation"
    );
    assert_eq!(
        IqdbError::DimensionMismatch { expected: usize::MAX, found: 1234567890 }.to_string(),
        format!("vector dimension mismatch: expected {}, found 1234567890", usize::MAX)
    );
}

#[test]
fn empty_byte_key_reason_is_exact() {
    match VectorId::try_from(Vec::new()) {
        Err(IqdbError::InvalidConfig { reason }) => {
            assert_eq!(reason, "VectorId::Bytes key must not be empty")
        }
        other => panic!("expected InvalidConfig, got {other:?}"),
    }
}

#[test]
fn ids_render_losslessly_within_a_kind() {
    for n in [0u64, 9, 10, 99, 100, 4096, 1_000_000_007, u64::MAX] {
        let text = VectorId::from(n).to_string();
        assert_eq!(text, n.to_string());
        assert_eq!(text.parse::<u64>().unwrap(), n);
    }
    for key in [vec![0x0a], vec![0x00, 0x00], vec![0xab, 0xcd, 0xef], (0..=255).collect()] {
        let text = VectorId::try_from(key.clone()).unwrap().to_string();
        assert_eq!(text.len(), 2 * key.len());
        let back: Vec<u8> = (0..text.len())
            .step_by(2)
            .map(|i| u8::from_str_radix(&text[i..i + 2], 16).unwrap())
            .collect();
        assert_eq!(back, key);
    }
    assert_eq!(VectorId::try_from(vec![0x0a]).unwrap().to_string(), "0a");
}

#[test]
fn ids_compare_by_kind_and_content_and_clone_equal() {
    let a = VectorId::try_from(vec![1, 2]).unwrap();
    assert_eq!(a.clone(), a);
    assert_ne!(a, VectorId::try_from(vec![1, 2, 3]).unwrap());
    assert_ne!(VectorId::U64(1), VectorId::try_from(vec![1]).unwrap());
    assert_eq!(VectorId::from(3u64).clone(), VectorId::U64(3));
}

#[test]
fn filters_compare_structurally_with_ieee_values() {
    let f = Filter::or(vec![
        Filter::is_in("year", vec![Value::Int(2025), Value::Int(2026)]),
        Filter::neq("status", Value::String("draft".to_string())),
        Filter::not(Filter::lte("score", Value::Float(0.5f64.to_bits()))),
    ]);
    assert_eq!(f.clone(), f);
    assert_ne!(f, Filter::or(vec![]));
    assert_eq!(
        Filter::lt("s", Value::Float(0.0f64.to_bits())),
        Filter::lt("s", Value::Float((-0.0f64).to_bits()))
    );
    let nan = Filter::gte("s", Value::Float(f64::NAN.to_bits()));
    assert_ne!(nan.clone(), nan);
    assert_ne!(Filter::eq("a", Value::Null), Filter::neq("a", Value::Null));
    assert_eq!(
        Filter::eq(String::from("a"), Value::Null),
        Filter::Eq { field: "a".to_string(), value: Value::Null }
    );
}

#[test]
fn search_params_and_hits_compare_and_clone() {
    let p = SearchParams {
        ef: Some(64),
        filter: Some(Filter::eq("k", Value::Bool(true))),
        ..SearchParams::new(3, DistanceMetric::DotProduct)
    };
    assert_eq!(p.clone(), p);
    assert_ne!(p, SearchParams::new(3, DistanceMetric::DotProduct));

    let h = Hit {
        metadata: Some(meta(&[("a", Value::Int(1))])),
        ..Hit::new(VectorId::from(9u64), 0.0f32.to_bits())
    };
    assert_eq!(h.clone(), h);
    assert_eq!(Hit::new(VectorId::from(9u64), 0.0f32.to_bits()), Hit::new(VectorId::from(9u64), (-0.0f32).to_bits()));
    assert_ne!(Hit::new(VectorId::from(9u64), f32::NAN.to_bits()), Hit::new(VectorId::from(9u64), f32::NAN.to_bits()));
    assert_ne!(h, Hit::new(VectorId::from(9u64), 0.0f32.to_bits()));
}
