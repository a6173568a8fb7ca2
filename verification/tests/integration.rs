// Conformance fixtures: each entry is a wire-format byte sequence together
// with the value it must decode to, loaded explicitly rather than fetched
// from anywhere. test_decode walks the fixtures through the reader;
// test_encode rebuilds each byte sequence through the writer.

use polyglot::Cursor;
use polyglot::DecodingError;
use polyglot::Kind;

fn fixture_none() -> Vec<u8> {
    vec![0x00]
}

fn fixture_bool_true() -> Vec<u8> {
    vec![0x07, 0x01]
}

fn fixture_u8() -> Vec<u8> {
    vec![0x08, 0x20]
}

fn fixture_u16() -> Vec<u8> {
    vec![0x09, 0x80, 0x08]
}

fn fixture_u32() -> Vec<u8> {
    vec![0x0a, 0xFA, 0xFF, 0xFF, 0xFF, 0x0F]
}

fn fixture_u64() -> Vec<u8> {
    vec![0x0b, 0xFA, 0xFF, 0xFF, 0xFF, 0xFF, 0xFF, 0xFF, 0xFF, 0xFF, 0x01]
}

fn fixture_i32() -> Vec<u8> {
    vec![0x0c, 0xFF, 0xFF, 0xFF, 0xFF, 0x0F]
}

fn fixture_i64() -> Vec<u8> {
    vec![0x0d, 0xFF, 0xFF, 0xFF, 0xFF, 0xFF, 0xFF, 0xFF, 0xFF, 0xFF, 0x01]
}

fn fixture_f32() -> Vec<u8> {
    vec![0x0e, 0xC8, 0x51, 0x9E, 0x16]
}

fn fixture_f64() -> Vec<u8> {
    vec![0x0f, 0xC2, 0x6A, 0xD7, 0xF2, 0x9A, 0xBC, 0xA7, 0x81]
}

fn fixture_bytes() -> Vec<u8> {
    let mut v = vec![0x04, 0x0a, 0x0b];
    v.extend_from_slice("Test String".as_bytes());
    v
}

fn fixture_string() -> Vec<u8> {
    let mut v = vec![0x05, 0x0a, 0x0b];
    v.extend_from_slice("Test String".as_bytes());
    v
}

fn fixture_error() -> Vec<u8> {
    let mut v = vec![0x06, 0x05, 0x0a, 0x0a];
    v.extend_from_slice("Test Error".as_bytes());
    v
}

fn fixture_array() -> Vec<u8> {
    // Array of three strings, each element self-tagged.
    let mut v = vec![0x01, 0x05, 0x0a, 0x03];
    for s in ["1", "2", "3"] {
        v.push(0x05);
        v.push(0x0a);
        v.push(s.len() as u8);
        v.extend_from_slice(s.as_bytes());
    }
    v
}

fn fixture_map() -> Vec<u8> {
    // Map of one string key to one u32 value, both self-tagged.
    let mut v = vec![0x02, 0x05, 0x0a, 0x0a, 0x01];
    v.push(0x05);
    v.push(0x0a);
    v.push(0x03);
    v.extend_from_slice("key".as_bytes());
    v.push(0x0a);
    v.push(0x2a);
    v
}

#[test]
fn test_decode() {
    let mut decoder = Cursor::new(fixture_none());
    assert_eq!(decoder.decode_none(), true);

    let mut decoder = Cursor::new(fixture_bool_true());
    assert_eq!(decoder.decode_bool().unwrap(), true);

    let mut decoder = Cursor::new(fixture_u8());
    assert_eq!(decoder.decode_u8().unwrap(), 32u8);

    let mut decoder = Cursor::new(fixture_u16());
    assert_eq!(decoder.decode_u16().unwrap(), 1024u16);

    let mut decoder = Cursor::new(fixture_u32());
    assert_eq!(decoder.decode_u32().unwrap(), 4294967290u32);

    let mut decoder = Cursor::new(fixture_u64());
    assert_eq!(decoder.decode_u64().unwrap(), 18446744073709551610u64);

    let mut decoder = Cursor::new(fixture_i32());
    assert_eq!(decoder.decode_i32().unwrap(), -2147483648i32);

    let mut decoder = Cursor::new(fixture_i64());
    assert_eq!(decoder.decode_i64().unwrap(), -9223372036854775808i64);

    let mut decoder = Cursor::new(fixture_f32());
    assert_eq!(
        f32::from_bits(decoder.decode_f32_bits().unwrap()),
        -214648.34432 as f32
    );

    let mut decoder = Cursor::new(fixture_f64());
    assert_eq!(
        f64::from_bits(decoder.decode_f64_bits().unwrap()),
        -922337203685.2345
    );

    let mut decoder = Cursor::new(fixture_bytes());
    assert_eq!(
        decoder.decode_bytes().unwrap(),
        "Test String".as_bytes().to_owned()
    );

    let mut decoder = Cursor::new(fixture_string());
    assert_eq!(decoder.decode_string().unwrap(), "Test String");

    let mut decoder = Cursor::new(fixture_error());
    assert_eq!(decoder.decode_error().unwrap(), "Test Error");

    let mut decoder = Cursor::new(fixture_array());
    let len = decoder.decode_array(Kind::String).unwrap();
    assert_eq!(len, 3);
    for expected in ["1", "2", "3"] {
        assert_eq!(decoder.decode_string().unwrap(), expected);
    }

    let mut decoder = Cursor::new(fixture_map());
    let len = decoder.decode_map(Kind::String, Kind::U32).unwrap();
    assert_eq!(len, 1);
    assert_eq!(decoder.decode_string().unwrap(), "key");
    assert_eq!(decoder.decode_u32().unwrap(), 42u32);

    // A recognized kind byte names its kind; anything else is Unknown.
    assert_eq!(Kind::from(0x05), Kind::String);
    assert_eq!(Kind::from(0x10), Kind::Unknown);
    assert_eq!(Kind::from(0xFF), Kind::Unknown);

    // A mismatched decode is rejected with the operation's own error.
    let mut decoder = Cursor::new(fixture_string());
    assert_eq!(decoder.decode_u32(), Err(DecodingError::InvalidU32));
}

#[test]
fn test_encode() {
    let encoder = Cursor::with_capacity(512).encode_none();
    assert_eq!(encoder.into_vec(), fixture_none());

    let encoder = Cursor::with_capacity(512).encode_bool(true);
    assert_eq!(encoder.into_vec(), fixture_bool_true());

    let encoder = Cursor::with_capacity(512).encode_u8(32);
    assert_eq!(encoder.into_vec(), fixture_u8());

    let encoder = Cursor::with_capacity(512).encode_u16(1024);
    assert_eq!(encoder.into_vec(), fixture_u16());

    let encoder = Cursor::with_capacity(512).encode_u32(4294967290);
    assert_eq!(encoder.into_vec(), fixture_u32());

    let encoder = Cursor::with_capacity(512).encode_u64(18446744073709551610);
    assert_eq!(encoder.into_vec(), fixture_u64());

    let encoder = Cursor::with_capacity(512).encode_i32(-2147483648);
    assert_eq!(encoder.into_vec(), fixture_i32());

    let encoder = Cursor::with_capacity(512).encode_i64(-9223372036854775808i64);
    assert_eq!(encoder.into_vec(), fixture_i64());

    let encoder = Cursor::with_capacity(512).encode_f32_bits((-214648.34432 as f32).to_bits());
    assert_eq!(encoder.into_vec(), fixture_f32());

    let encoder = Cursor::with_capacity(512).encode_f64_bits((-922337203685.2345f64).to_bits());
    assert_eq!(encoder.into_vec(), fixture_f64());

    let encoder = Cursor::with_capacity(512).encode_bytes("Test String".as_bytes());
    assert_eq!(encoder.into_vec(), fixture_bytes());

    let encoder = Cursor::with_capacity(512).encode_string("Test String");
    assert_eq!(encoder.into_vec(), fixture_string());

    let encoder = Cursor::with_capacity(512).encode_error("Test Error");
    assert_eq!(encoder.into_vec(), fixture_error());

    let mut encoder = Cursor::with_capacity(512).encode_array(3, Kind::String);
    for s in ["1", "2", "3"] {
        encoder = encoder.encode_string(s);
    }
    assert_eq!(encoder.into_vec(), fixture_array());

    let encoder = Cursor::with_capacity(512)
        .encode_map(1, Kind::String, Kind::U32)
        .encode_string("key")
        .encode_u32(42);
    assert_eq!(encoder.into_vec(), fixture_map());
}
