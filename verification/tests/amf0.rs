use scuffle::amf0::{Amf0Encoder, Amf0Marker, Amf0Value, Amf0WriteError};

#[test]
fn test_marker() {
    let cases = [
        (Amf0Value::Number(1.0f64.to_bits()), Amf0Marker::Number),
        (Amf0Value::Boolean(true), Amf0Marker::Boolean),
        (Amf0Value::String("test".to_string()), Amf0Marker::String),
        (
            Amf0Value::Object(vec![("test".to_string(), Amf0Value::Number(1.0f64.to_bits()))]),
            Amf0Marker::Object,
        ),
        (Amf0Value::Null, Amf0Marker::Null),
        (Amf0Value::ObjectEnd, Amf0Marker::ObjectEnd),
        (Amf0Value::LongString("test".to_string()), Amf0Marker::LongString),
    ];

    for (value, marker) in cases {
        assert_eq!(value.marker(), marker);
    }
}

#[test]
fn test_to_owned() {
    let value = Amf0Value::Object(vec![("test".to_string(), Amf0Value::LongString("test".to_string()))]);
    let owned = value.to_owned();
    assert_eq!(
        owned,
        Amf0Value::Object(vec![("test".to_string(), Amf0Value::LongString("test".to_string()))])
    );

    let value = Amf0Value::String("test".to_string());
    let owned = value.to_owned();
    assert_eq!(owned, Amf0Value::String("test".to_string()));

    let value = Amf0Value::Number(1.0f64.to_bits());
    let owned = value.to_owned();
    assert_eq!(owned, Amf0Value::Number(1.0f64.to_bits()));

    let value = Amf0Value::Boolean(true);
    let owned = value.to_owned();
    assert_eq!(owned, Amf0Value::Boolean(true));

    let value = Amf0Value::Null;
    let owned = value.to_owned();
    assert_eq!(owned, Amf0Value::Null);

    let value = Amf0Value::ObjectEnd;
    let owned = value.to_owned();
    assert_eq!(owned, Amf0Value::ObjectEnd);
}

#[test]
fn test_marker_primitive() {
    let cases = [
        (Amf0Marker::Number, 0x00),
        (Amf0Marker::Boolean, 0x01),
        (Amf0Marker::String, 0x02),
        (Amf0Marker::Object, 0x03),
        (Amf0Marker::MovieClipMarker, 0x04),
        (Amf0Marker::Null, 0x05),
        (Amf0Marker::Undefined, 0x06),
        (Amf0Marker::Reference, 0x07),
        (Amf0Marker::EcmaArray, 0x08),
        (Amf0Marker::ObjectEnd, 0x09),
        (Amf0Marker::StrictArray, 0x0a),
        (Amf0Marker::Date, 0x0b),
        (Amf0Marker::LongString, 0x0c),
        (Amf0Marker::Unsupported, 0x0d),
        (Amf0Marker::Recordset, 0x0e),
        (Amf0Marker::XmlDocument, 0x0f),
        (Amf0Marker::TypedObject, 0x10),
        (Amf0Marker::AVMPlusObject, 0x11),
    ];

    for (marker, value) in cases {
        assert_eq!(marker as u8, value);
        assert_eq!(marker.to_u8(), value);
        assert_eq!(Amf0Marker::from_u8(value), Some(marker));
    }

    assert!(Amf0Marker::from_u8(0x12).is_none());
}

#[test]
fn test_write_number() {
    let mut amf0_number = vec![0x00];
    amf0_number.extend_from_slice(&772.161_f64.to_be_bytes());

    let mut vec = Vec::<u8>::new();

    Amf0Encoder::encode_number(&mut vec, 772.161_f64.to_bits()).unwrap();

    assert_eq!(vec, amf0_number);
}

#[test]
fn test_write_boolean() {
    let amf0_boolean = vec![0x01, 0x01];

    let mut vec = Vec::<u8>::new();

    Amf0Encoder::encode_bool(&mut vec, true).unwrap();

    assert_eq!(vec, amf0_boolean);
}

#[test]
fn test_write_string() {
    let mut amf0_string = vec![0x02, 0x00, 0x0b];
    amf0_string.extend_from_slice(b"Hello World");

    let mut vec = Vec::<u8>::new();

    Amf0Encoder::encode_string(&mut vec, "Hello World").unwrap();

    assert_eq!(vec, amf0_string);
}

#[test]
fn test_write_null() {
    let amf0_null = vec![0x05];

    let mut vec = Vec::<u8>::new();

    Amf0Encoder::encode_null(&mut vec).unwrap();

    assert_eq!(vec, amf0_null);
}

#[test]
fn test_write_object() {
    let mut amf0_object = vec![0x03, 0x00, 0x04];
    amf0_object.extend_from_slice(b"test");
    amf0_object.extend_from_slice(&[0x05]);
    amf0_object.extend_from_slice(&[0x00, 0x00, 0x09]);

    let mut vec = Vec::<u8>::new();

    Amf0Encoder::encode_object(&mut vec, &[("test".into(), Amf0Value::Null)]).unwrap();

    assert_eq!(vec, amf0_object);
}

#[test]
fn test_write_false_and_value_dispatch() {
    let mut vec = Vec::new();
    Amf0Encoder::encode_bool(&mut vec, false).unwrap();
    Amf0Encoder::encode(&mut vec, &Amf0Value::Boolean(true)).unwrap();
    Amf0Encoder::encode(&mut vec, &Amf0Value::Null).unwrap();
    Amf0Encoder::encode(&mut vec, &Amf0Value::Number(0x0102030405060708)).unwrap();
    assert_eq!(vec, vec![0x01, 0x00, 0x01, 0x01, 0x05, 0x00, 1, 2, 3, 4, 5, 6, 7, 8]);
}

#[test]
fn test_write_unsupported() {
    let mut vec = vec![0xaa];
    let err = Amf0Encoder::encode(&mut vec, &Amf0Value::LongString("x".to_string())).unwrap_err();
    assert_eq!(err, Amf0WriteError::UnsupportedType(Amf0Marker::LongString));
    let err = Amf0Encoder::encode(&mut vec, &Amf0Value::ObjectEnd).unwrap_err();
    assert_eq!(err, Amf0WriteError::UnsupportedType(Amf0Marker::ObjectEnd));
    assert_eq!(vec, vec![0xaa]);
}

#[test]
fn test_write_string_too_long() {
    let long = "a".repeat(65536);
    let mut vec = Vec::new();
    assert_eq!(Amf0Encoder::encode_string(&mut vec, &long).unwrap_err(), Amf0WriteError::NormalStringTooLong);
    assert!(vec.is_empty());

    let longest = "a".repeat(65535);
    Amf0Encoder::encode_string(&mut vec, &longest).unwrap();
    assert_eq!(&vec[..3], &[0x02, 0xff, 0xff]);
    assert_eq!(vec.len(), 3 + 65535);
}

#[test]
fn test_write_nested_object_with_failure() {
    let value = Amf0Value::Object(vec![
        ("a".to_string(), Amf0Value::Boolean(true)),
        ("b".to_string(), Amf0Value::Object(vec![("c".to_string(), Amf0Value::Null)])),
        ("d".to_string(), Amf0Value::ObjectEnd),
        ("e".to_string(), Amf0Value::Null),
    ]);
    let mut vec = Vec::new();
    let err = Amf0Encoder::encode(&mut vec, &value).unwrap_err();
    assert_eq!(err, Amf0WriteError::UnsupportedType(Amf0Marker::ObjectEnd));
    assert_eq!(
        vec,
        vec![
            0x03, 0x00, 0x01, b'a', 0x01, 0x01, 0x00, 0x01, b'b', 0x03, 0x00, 0x01, b'c', 0x05, 0x00, 0x00, 0x09,
            0x00, 0x01, b'd'
        ]
    );
}

#[test]
fn test_write_utf8_string_length_in_bytes() {
    let mut vec = Vec::new();
    Amf0Encoder::encode_string(&mut vec, "é").unwrap();
    assert_eq!(vec, vec![0x02, 0x00, 0x02, 0xc3, 0xa9]);
}

#[test]
fn test_clone_keeps_content() {
    let value = Amf0Value::Object(vec![("k".to_string(), Amf0Value::String("v".to_string()))]);
    let copy = value.clone();
    assert_eq!(copy, value);
    let mut a = Vec::new();
    let mut b = Vec::new();
    Amf0Encoder::encode(&mut a, &value).unwrap();
    Amf0Encoder::encode(&mut b, &copy).unwrap();
    assert_eq!(a, b);
}
