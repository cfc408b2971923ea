use jubako::bases::BaseArray;
use jubako::directory_pack::raw_value::{Array, ContentAddress, Extend, RawValue, Value};
use jubako::directory_pack::value_store::ValueStore;
use std::cmp::Ordering;
use std::sync::Arc;

/// A plain value store holding "HelloWorldJubakoisawsome".
fn mock_store() -> Arc<ValueStore> {
    let data = b"HelloWorldJubakoisawsome";
    let mut buf = data.to_vec();
    buf.extend_from_slice(&[0, 0, 0, 0]);
    let header_offset = buf.len();
    buf.push(0);
    buf.extend_from_slice(&(data.len() as u64).to_le_bytes());
    Arc::new(ValueStore::parse(&buf, header_offset, 9).unwrap())
}

fn deported(base: &[u8], size: u64, value_id: u64) -> Array {
    Array::new(
        Some(size),
        BaseArray::new(base),
        base.len() as u8,
        Some(Extend::new(mock_store(), value_id)),
    )
}

#[test]
fn test_resolver_resolve() {
    let cases = vec![
        (RawValue::U8(5), Value::Unsigned(5)),
        (RawValue::U16(300), Value::Unsigned(300)),
        (RawValue::U32(5), Value::Unsigned(5)),
        (RawValue::U64(5), Value::Unsigned(5)),
        (RawValue::I8(5), Value::Signed(5)),
        (RawValue::I16(5), Value::Signed(5)),
        (RawValue::I32(5), Value::Signed(5)),
        (RawValue::I64(5), Value::Signed(5)),
        (RawValue::Array(deported(b"Bye ", 10, 10)), Value::Array(b"Bye Jubako".to_vec())),
        (
            RawValue::Content(ContentAddress::new(0, 50)),
            Value::Content(ContentAddress::new(0, 50)),
        ),
    ];
    for (value, expected) in cases {
        assert_eq!(value.get().unwrap(), expected);
    }
}

#[test]
fn test_resolver_unsigned() {
    assert_eq!(RawValue::U8(0).as_unsigned(), 0);
    assert_eq!(RawValue::U8(5).as_unsigned(), 5);
    assert_eq!(RawValue::U8(255).as_unsigned(), 255);
    assert_eq!(RawValue::U16(300).as_unsigned(), 300);
    assert_eq!(RawValue::U32(30000).as_unsigned(), 30000);
    assert_eq!(RawValue::U64(300000000).as_unsigned(), 300000000);
}

#[test]
fn test_resolver_signed() {
    assert_eq!(RawValue::I8(0).as_signed(), 0);
    assert_eq!(RawValue::I8(5).as_signed(), 5);
    assert_eq!(RawValue::I8(-1).as_signed(), -1);
    assert_eq!(RawValue::I16(300).as_signed(), 300);
    assert_eq!(RawValue::I16(-300).as_signed(), -300);
    assert_eq!(RawValue::I32(30000).as_signed(), 30000);
    assert_eq!(RawValue::I32(-30000).as_signed(), -30000);
    assert_eq!(RawValue::I64(300000000).as_signed(), 300000000);
    assert_eq!(RawValue::I64(-300000000).as_signed(), -300000000);
}

#[test]
fn test_resolver_indirect() {
    let cases: Vec<(&[u8], Option<u64>, &[u8])> = vec![
        (b"", None, b""),
        (b"Hello", None, b"Hello"),
        (b"Hello", Some(0), b"HelloHello"),
        (b"Hello ", Some(10), b"Hello Jubako"),
        (b"", Some(18), b"awsome"),
    ];
    for (base, extend, expected) in cases {
        let raw_value = RawValue::Array(Array::new(
            Some(expected.len() as u64),
            BaseArray::new(base),
            base.len() as u8,
            extend.map(|id| Extend::new(mock_store(), id)),
        ));
        assert_eq!(raw_value.as_vec().unwrap(), expected);
    }
}

#[test]
fn test_resolver_compare() {
    let raw_value = deported(b"Hello ", 12, 10);
    assert_eq!(raw_value.cmp(b"Hel").unwrap(), Ordering::Greater);
    assert_eq!(raw_value.cmp(b"Hello").unwrap(), Ordering::Greater);
    assert_eq!(raw_value.cmp(b"Hello ").unwrap(), Ordering::Greater);
    assert_eq!(raw_value.cmp(b"Hello Jubako").unwrap(), Ordering::Equal);
    assert_eq!(raw_value.cmp(b"Hello Jubako!").unwrap(), Ordering::Less);
    assert_eq!(raw_value.cmp(b"Hella Jubako!").unwrap(), Ordering::Greater);
    assert_eq!(raw_value.cmp(b"Hemmo Jubako!").unwrap(), Ordering::Less);
}

#[test]
fn array_compare_agrees_with_bytes() {
    // The order of an array is the lexicographic order of its full bytes.
    let raw_value = deported(b"Hello ", 12, 10);
    let full = b"Hello Jubako".to_vec();
    for other in [&b"Hello Juba"[..], b"Hello Jubakp", b"Hello Jubako", b"", b"Z"] {
        assert_eq!(raw_value.cmp(other).unwrap(), full.as_slice().cmp(other));
    }
}

#[test]
fn array_without_size_is_its_base() {
    let a = Array::new(None, BaseArray::new(b"abc"), 3, None);
    assert_eq!(RawValue::Array(a).as_vec().unwrap(), b"abc".to_vec());
}

#[test]
fn deported_part_past_store_end_fails() {
    let raw_value = RawValue::Array(deported(b"ab", 40, 10));
    assert!(raw_value.get().is_err());
}

#[test]
fn raw_value_partial_cmp() {
    assert_eq!(RawValue::U8(5).partial_cmp(&Value::Unsigned(7)), Ok(Some(Ordering::Less)));
    assert_eq!(RawValue::U64(7).partial_cmp(&Value::Unsigned(7)), Ok(Some(Ordering::Equal)));
    assert_eq!(RawValue::I8(-5).partial_cmp(&Value::Signed(-7)), Ok(Some(Ordering::Greater)));
    assert_eq!(RawValue::I8(5).partial_cmp(&Value::Unsigned(5)), Ok(None));
    assert_eq!(
        RawValue::Content(ContentAddress::new(0, 1)).partial_cmp(&Value::Content(ContentAddress::new(0, 1))),
        Ok(None)
    );
    let a = RawValue::Array(deported(b"Hello ", 12, 10));
    assert_eq!(a.partial_cmp(&Value::Array(b"Hello Jubako".to_vec())), Ok(Some(Ordering::Equal)));
    assert_eq!(a.partial_cmp(&Value::Unsigned(1)), Ok(None));
}

#[test]
fn unsigned_and_signed_values() {
    assert_eq!(RawValue::U32(9).unsigned_value(), Some(9));
    assert_eq!(RawValue::I32(9).unsigned_value(), None);
    assert_eq!(RawValue::I16(-9).signed_value(), Some(-9));
    assert_eq!(RawValue::U8(9).signed_value(), None);
}
