use larql::error::ModelError;
use larql::gguf::constants::{
    GGUF_TYPE_ARRAY, GGUF_TYPE_BOOL, GGUF_TYPE_FLOAT32, GGUF_TYPE_FLOAT64, GGUF_TYPE_INT16,
    GGUF_TYPE_INT32, GGUF_TYPE_INT64, GGUF_TYPE_INT8, GGUF_TYPE_STRING, GGUF_TYPE_UINT16,
    GGUF_TYPE_UINT32, GGUF_TYPE_UINT64, GGUF_TYPE_UINT8,
};
use larql::gguf::reader::{read_array_element, read_string, read_value, ByteReader};
use larql::gguf::types::{FloatBits, GgufValue};

#[test]
fn gguf_value_as_u32_handles_three_int_variants() {
    assert_eq!(GgufValue::U32(7).as_u32(), Some(7));
    assert_eq!(GgufValue::I32(-1).as_u32(), Some(u32::MAX));
    assert_eq!(GgufValue::U64(42).as_u32(), Some(42));
    assert_eq!(GgufValue::String("x".into()).as_u32(), None);
    assert_eq!(GgufValue::U64(0x1_0000_0005).as_u32(), Some(5));
}

#[test]
fn gguf_value_as_str_returns_string_payload() {
    assert_eq!(GgufValue::String("hi".into()).as_str(), Some("hi"));
    assert_eq!(GgufValue::U32(1).as_str(), None);
}

fn as_number(v: GgufValue) -> Option<f64> {
    v.as_f64().map(|b| match b {
        FloatBits::Single(s) => f32::from_bits(s) as f64,
        FloatBits::Double(d) => f64::from_bits(d),
    })
}

#[test]
fn gguf_value_as_f64_widens_f32_and_returns_f64_payload() {
    assert_eq!(as_number(GgufValue::F32(1.5f32.to_bits())), Some(1.5));
    assert_eq!(as_number(GgufValue::F64(2.5f64.to_bits())), Some(2.5));
    assert_eq!(as_number(GgufValue::U32(1)), None);
}

fn value_of(buf: &[u8]) -> Result<GgufValue, ModelError> {
    read_value(&mut ByteReader::new(buf))
}

fn tagged(tag: u32, payload: &[u8]) -> Vec<u8> {
    let mut buf = Vec::new();
    buf.extend_from_slice(&tag.to_le_bytes());
    buf.extend_from_slice(payload);
    buf
}

#[test]
fn read_value_dispatches_every_supported_variant() {
    assert!(matches!(
        value_of(&tagged(GGUF_TYPE_UINT8, &[0xAB])).unwrap(),
        GgufValue::U8(0xAB)
    ));
    assert!(matches!(
        value_of(&tagged(GGUF_TYPE_INT8, &[0xFF])).unwrap(),
        GgufValue::I8(-1)
    ));
    assert!(matches!(
        value_of(&tagged(GGUF_TYPE_UINT16, &12345u16.to_le_bytes())).unwrap(),
        GgufValue::U16(12345)
    ));
    assert!(matches!(
        value_of(&tagged(GGUF_TYPE_INT16, &(-7i16).to_le_bytes())).unwrap(),
        GgufValue::I16(-7)
    ));
    assert!(matches!(
        value_of(&tagged(GGUF_TYPE_INT32, &(-65_536i32).to_le_bytes())).unwrap(),
        GgufValue::I32(-65_536)
    ));
    assert!(matches!(
        value_of(&tagged(GGUF_TYPE_BOOL, &[1])).unwrap(),
        GgufValue::Bool(true)
    ));
    assert!(matches!(
        value_of(&tagged(GGUF_TYPE_BOOL, &[0])).unwrap(),
        GgufValue::Bool(false)
    ));
    match value_of(&tagged(GGUF_TYPE_UINT64, &(u64::MAX - 3).to_le_bytes())).unwrap() {
        GgufValue::U64(x) => assert_eq!(x, u64::MAX - 3),
        other => panic!("expected U64, got {other:?}"),
    }
    match value_of(&tagged(GGUF_TYPE_INT64, &(-9_999_999i64).to_le_bytes())).unwrap() {
        GgufValue::I64(x) => assert_eq!(x, -9_999_999),
        other => panic!("expected I64, got {other:?}"),
    }
    match value_of(&tagged(GGUF_TYPE_FLOAT64, &std::f64::consts::PI.to_le_bytes())).unwrap() {
        GgufValue::F64(x) => {
            assert!((f64::from_bits(x) - std::f64::consts::PI).abs() < 1e-12);
        }
        other => panic!("expected F64, got {other:?}"),
    }
}

#[test]
fn read_value_array_recurses_through_read_array_element() {
    let mut buf = Vec::new();
    buf.extend_from_slice(&GGUF_TYPE_ARRAY.to_le_bytes());
    buf.extend_from_slice(&GGUF_TYPE_UINT32.to_le_bytes());
    buf.extend_from_slice(&3u64.to_le_bytes());
    for v in [10u32, 20, 30] {
        buf.extend_from_slice(&v.to_le_bytes());
    }
    match value_of(&buf).unwrap() {
        GgufValue::Array(elems) => {
            assert_eq!(elems.len(), 3);
            assert!(matches!(elems[0], GgufValue::U32(10)));
            assert!(matches!(elems[1], GgufValue::U32(20)));
            assert!(matches!(elems[2], GgufValue::U32(30)));
        }
        other => panic!("expected Array, got {other:?}"),
    }
}

fn element_of(bytes: &[u8], tag: u32) -> Result<GgufValue, ModelError> {
    read_array_element(&mut ByteReader::new(bytes), tag)
}

#[test]
fn read_array_element_dispatches_every_supported_variant() {
    assert!(matches!(
        element_of(&[0x42], GGUF_TYPE_UINT8).unwrap(),
        GgufValue::U8(0x42)
    ));
    assert!(matches!(
        element_of(&[0xFE], GGUF_TYPE_INT8).unwrap(),
        GgufValue::I8(-2)
    ));
    assert!(matches!(
        element_of(&500u16.to_le_bytes(), GGUF_TYPE_UINT16).unwrap(),
        GgufValue::U16(500)
    ));
    assert!(matches!(
        element_of(&(-9i16).to_le_bytes(), GGUF_TYPE_INT16).unwrap(),
        GgufValue::I16(-9)
    ));
    assert!(matches!(
        element_of(&7u32.to_le_bytes(), GGUF_TYPE_UINT32).unwrap(),
        GgufValue::U32(7)
    ));
    assert!(matches!(
        element_of(&(-77_777i32).to_le_bytes(), GGUF_TYPE_INT32).unwrap(),
        GgufValue::I32(-77_777)
    ));
    match element_of(&2.5f32.to_le_bytes(), GGUF_TYPE_FLOAT32).unwrap() {
        GgufValue::F32(x) => assert_eq!(f32::from_bits(x), 2.5),
        other => panic!("expected F32, got {other:?}"),
    }
    assert!(matches!(
        element_of(&[1], GGUF_TYPE_BOOL).unwrap(),
        GgufValue::Bool(true)
    ));
    match element_of(&12345u64.to_le_bytes(), GGUF_TYPE_UINT64).unwrap() {
        GgufValue::U64(x) => assert_eq!(x, 12345),
        other => panic!("expected U64, got {other:?}"),
    }
    match element_of(&(-1234i64).to_le_bytes(), GGUF_TYPE_INT64).unwrap() {
        GgufValue::I64(x) => assert_eq!(x, -1234),
        other => panic!("expected I64, got {other:?}"),
    }
    match element_of(&1.5f64.to_le_bytes(), GGUF_TYPE_FLOAT64).unwrap() {
        GgufValue::F64(x) => assert_eq!(f64::from_bits(x), 1.5),
        other => panic!("expected F64, got {other:?}"),
    }
}

#[test]
fn read_array_element_string_variant() {
    let mut buf = Vec::new();
    buf.extend_from_slice(&6u64.to_le_bytes());
    buf.extend_from_slice(b"hello!");
    match element_of(&buf, GGUF_TYPE_STRING).unwrap() {
        GgufValue::String(s) => assert_eq!(s, "hello!"),
        other => panic!("expected String, got {other:?}"),
    }
}

#[test]
fn read_value_unknown_metadata_type_errors() {
    match value_of(&999u32.to_le_bytes()) {
        Err(ModelError::Parse(msg)) => {
            assert!(msg.contains("unknown GGUF metadata type"), "got: {msg}");
        }
        other => panic!("expected Parse error, got {other:?}"),
    }
}

#[test]
fn read_array_element_unknown_type_errors() {
    match element_of(&[], 9999) {
        Err(ModelError::Parse(msg)) => {
            assert!(
                msg.contains("unknown GGUF array element type"),
                "got: {msg}"
            );
        }
        other => panic!("expected Parse error, got {other:?}"),
    }
}

#[test]
fn read_string_rejects_non_utf8() {
    let mut buf = Vec::new();
    buf.extend_from_slice(&3u64.to_le_bytes());
    buf.extend_from_slice(&[0xFF, 0xFE, 0xFD]);
    match read_string(&mut ByteReader::new(&buf)) {
        Err(ModelError::Parse(_)) => {}
        other => panic!("expected Parse error, got {other:?}"),
    }
}

#[test]
fn read_string_takes_text_beyond_ascii() {
    let text = "d\u{e9}j\u{e0} \u{1f600}";
    let mut buf = Vec::new();
    buf.extend_from_slice(&(text.len() as u64).to_le_bytes());
    buf.extend_from_slice(text.as_bytes());
    assert_eq!(read_string(&mut ByteReader::new(&buf)).unwrap(), text);
}

#[test]
fn input_that_ends_early_is_an_io_error() {
    assert!(matches!(value_of(&[4, 0, 0]), Err(ModelError::Io)));
    assert!(matches!(
        value_of(&tagged(GGUF_TYPE_UINT32, &[1, 2, 3])),
        Err(ModelError::Io)
    ));
}
