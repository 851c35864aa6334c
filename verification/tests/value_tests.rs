use trakt_core::error::UrlError;
use trakt_core::value::{encode_value, fmt_i64, fmt_u64, CompositeKind, Value};

#[test]
fn url_value_serializer() {
    assert_eq!(encode_value(&Value::Bool(true)).unwrap(), b"true".to_vec());
    assert_eq!(encode_value(&Value::Bool(false)).unwrap(), b"false".to_vec());

    assert_eq!(encode_value(&Value::I8(1)).unwrap(), b"1".to_vec());
    assert_eq!(encode_value(&Value::I16(-1)).unwrap(), b"-1".to_vec());
    assert_eq!(encode_value(&Value::I32(1024)).unwrap(), b"1024".to_vec());
    assert_eq!(encode_value(&Value::I64(1024)).unwrap(), b"1024".to_vec());
    assert_eq!(encode_value(&Value::U8(1)).unwrap(), b"1".to_vec());
    assert_eq!(encode_value(&Value::U16(256)).unwrap(), b"256".to_vec());
    assert_eq!(encode_value(&Value::U32(1024)).unwrap(), b"1024".to_vec());
    assert_eq!(encode_value(&Value::U64(1024)).unwrap(), b"1024".to_vec());

    let mut buf = ryu::Buffer::new();
    let f32_text = buf.format(2.5f32).to_string();
    assert_eq!(
        encode_value(&Value::Float(f32_text)).unwrap(),
        b"2.5".to_vec()
    );

    let mut buf = ryu::Buffer::new();
    let f64_text = buf.format(-2.5f64).to_string();
    assert_eq!(
        encode_value(&Value::Float(f64_text)).unwrap(),
        b"-2.5".to_vec()
    );

    assert_eq!(encode_value(&Value::Char('a')).unwrap(), b"a".to_vec());
    assert_eq!(
        encode_value(&Value::Char('\u{1F680}')).unwrap(),
        b"%F0%9F%9A%80".to_vec()
    );

    assert_eq!(
        encode_value(&Value::Text(String::from("hello?"))).unwrap(),
        b"hello%3F".to_vec()
    );

    assert_eq!(
        encode_value(&Value::Bytes(b"hello?\xc3\x28\x00".to_vec())).unwrap(),
        b"hello%3F%C3(%00".to_vec()
    );

    assert_eq!(encode_value(&Value::Absent).unwrap(), b"".to_vec());
    assert_eq!(
        encode_value(&Value::Wrapped(Box::new(Value::Bool(true)))).unwrap(),
        b"true".to_vec()
    );
    assert_eq!(encode_value(&Value::Unit).unwrap(), b"".to_vec());
    assert_eq!(
        encode_value(&Value::UnitVariant(String::from("variant"))).unwrap(),
        b"variant".to_vec()
    );

    assert_eq!(
        encode_value(&Value::Composite(CompositeKind::Sequence)).unwrap_err(),
        UrlError::ValueNotSupported
    );
    assert_eq!(
        encode_value(&Value::Composite(CompositeKind::Tuple)).unwrap_err(),
        UrlError::ValueNotSupported
    );
    assert_eq!(
        encode_value(&Value::Composite(CompositeKind::TupleStruct)).unwrap_err(),
        UrlError::ValueNotSupported
    );
    assert_eq!(
        encode_value(&Value::Composite(CompositeKind::TupleVariant)).unwrap_err(),
        UrlError::ValueNotSupported
    );
    assert_eq!(
        encode_value(&Value::Composite(CompositeKind::Mapping)).unwrap_err(),
        UrlError::ValueNotSupported
    );
    assert_eq!(
        encode_value(&Value::Composite(CompositeKind::Record)).unwrap_err(),
        UrlError::ValueNotSupported
    );
    assert_eq!(
        encode_value(&Value::Composite(CompositeKind::RecordVariant)).unwrap_err(),
        UrlError::ValueNotSupported
    );
}

#[test]
fn encoding_is_pure() {
    let once = encode_value(&Value::Text(String::from("launch ? now"))).unwrap();
    let twice = encode_value(&Value::Text(String::from("launch ? now"))).unwrap();
    assert_eq!(once, twice);

    let once = encode_value(&Value::I64(-77)).unwrap();
    let twice = encode_value(&Value::I64(-77)).unwrap();
    assert_eq!(once, twice);
}

#[test]
fn integer_formatting_extremes() {
    assert_eq!(fmt_u64(0), b"0".to_vec());
    assert_eq!(fmt_u64(u64::MAX), b"18446744073709551615".to_vec());
    assert_eq!(fmt_i64(i64::MIN), b"-9223372036854775808".to_vec());
    assert_eq!(fmt_i64(i64::MAX), b"9223372036854775807".to_vec());
    assert_eq!(fmt_i64(0), b"0".to_vec());
}

#[test]
fn text_escaping_details() {
    // Bytes at or above 0x80 are escaped, so multi-byte UTF-8 turns into
    // percent escapes; the tilde and other printable ASCII pass through.
    assert_eq!(
        encode_value(&Value::Text(String::from("caf\u{e9}"))).unwrap(),
        b"caf%C3%A9".to_vec()
    );
    assert_eq!(
        encode_value(&Value::Text(String::from("a b"))).unwrap(),
        b"a%20b".to_vec()
    );
    assert_eq!(
        encode_value(&Value::Text(String::from("a~b"))).unwrap(),
        b"a~b".to_vec()
    );
}
