//! The operator-facing rendering of `VectorId`: `U64` as its decimal
//! integer; `Bytes` as lowercase hex, no prefix, no separators.

use iqdb_types::VectorId;

#[test]
fn u64_display_is_decimal() {
    assert_eq!(VectorId::from(0u64).to_string(), "0");
    assert_eq!(VectorId::from(7u64).to_string(), "7");
    assert_eq!(VectorId::from(u64::MAX).to_string(), u64::MAX.to_string());
}

#[test]
fn bytes_display_is_lowercase_hex_no_prefix() {
    let id = VectorId::try_from(vec![0xde, 0xad, 0xbe, 0xef]).unwrap();
    assert_eq!(id.to_string(), "deadbeef");
}

#[test]
fn bytes_display_pads_each_byte_to_two_hex_chars() {
    let id = VectorId::try_from(vec![0x00, 0x0f, 0xf0]).unwrap();
    assert_eq!(id.to_string(), "000ff0");
}

#[test]
fn bytes_display_handles_long_keys() {
    let bytes: Vec<u8> = (0..32).map(|i| i as u8).collect();
    let id = VectorId::try_from(bytes.clone()).unwrap();
    let rendered = id.to_string();
    assert_eq!(rendered.len(), 64);
    assert!(
        rendered
            .chars()
            .all(|c| c.is_ascii_hexdigit() && !c.is_ascii_uppercase())
    );
    assert!(rendered.starts_with("000102"));
    assert!(rendered.ends_with("1e1f"));
}

#[test]
fn debug_and_display_are_distinct() {
    let id = VectorId::try_from(vec![0x01, 0x02]).unwrap();
    assert_ne!(id.to_string(), format!("{id:?}"));
    assert_eq!(id.to_string(), "0102");
}
