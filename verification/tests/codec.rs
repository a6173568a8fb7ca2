// Round trips, rewind behavior, varint boundaries, zigzag symmetry, and
// one input for each decode error.

use polyglot::Cursor;
use polyglot::DecodingError;
use polyglot::Kind;

fn reread(encoder: Cursor) -> Cursor {
    Cursor::new(encoder.into_vec())
}

#[test]
fn round_trip_none() {
    let mut d = reread(Cursor::with_capacity(16).encode_none());
    assert!(d.decode_none());
    assert_eq!(d.position(), 1);
}

#[test]
fn round_trip_bool() {
    for v in [false, true] {
        let mut d = reread(Cursor::with_capacity(16).encode_bool(v));
        assert_eq!(d.decode_bool().unwrap(), v);
    }
}

#[test]
fn round_trip_u8() {
    for v in [0u8, 1, 32, 127, 128, 255] {
        let mut d = reread(Cursor::with_capacity(16).encode_u8(v));
        assert_eq!(d.decode_u8().unwrap(), v);
    }
}

#[test]
fn round_trip_u16() {
    for v in [0u16, 1, 127, 128, 1024, 16383, 16384, u16::MAX] {
        let mut d = reread(Cursor::with_capacity(16).encode_u16(v));
        assert_eq!(d.decode_u16().unwrap(), v);
    }
}

#[test]
fn round_trip_u32() {
    for v in [0u32, 1, 127, 128, 16384, 2097152, 268435456, u32::MAX] {
        let mut d = reread(Cursor::with_capacity(16).encode_u32(v));
        assert_eq!(d.decode_u32().unwrap(), v);
    }
}

#[test]
fn round_trip_u64() {
    for v in [0u64, 1, 127, 128, 1 << 32, 1 << 56, 1 << 63, u64::MAX] {
        let mut d = reread(Cursor::with_capacity(16).encode_u64(v));
        assert_eq!(d.decode_u64().unwrap(), v);
    }
}

#[test]
fn round_trip_i32() {
    for v in [0i32, 1, -1, 63, -64, 64, -65, i32::MAX, i32::MIN] {
        let mut d = reread(Cursor::with_capacity(16).encode_i32(v));
        assert_eq!(d.decode_i32().unwrap(), v);
    }
}

#[test]
fn round_trip_i64() {
    for v in [0i64, 1, -1, 63, -64, i64::MAX, i64::MIN] {
        let mut d = reread(Cursor::with_capacity(16).encode_i64(v));
        assert_eq!(d.decode_i64().unwrap(), v);
    }
}

#[test]
fn round_trip_f32_bits() {
    for v in [0.0f32, 1.5, -2.25, f32::MAX, f32::MIN_POSITIVE] {
        let mut d = reread(Cursor::with_capacity(16).encode_f32_bits(v.to_bits()));
        assert_eq!(f32::from_bits(d.decode_f32_bits().unwrap()), v);
    }
}

#[test]
fn round_trip_f64_bits() {
    for v in [0.0f64, 1.5, -2.25, f64::MAX, f64::MIN_POSITIVE] {
        let mut d = reread(Cursor::with_capacity(16).encode_f64_bits(v.to_bits()));
        assert_eq!(f64::from_bits(d.decode_f64_bits().unwrap()), v);
    }
}

#[test]
fn round_trip_bytes() {
    for v in [&b""[..], &b"\x00"[..], &b"Test String"[..], &[0xFFu8; 300][..]] {
        let mut d = reread(Cursor::with_capacity(512).encode_bytes(v));
        assert_eq!(d.decode_bytes().unwrap(), v);
    }
}

#[test]
fn round_trip_string() {
    for v in ["", "Test String", "caf\u{e9} \u{1F600}"] {
        let mut d = reread(Cursor::with_capacity(64).encode_string(v));
        assert_eq!(d.decode_string().unwrap(), v);
    }
}

#[test]
fn round_trip_error() {
    let mut d = reread(Cursor::with_capacity(64).encode_error("Test Error"));
    assert_eq!(d.decode_error().unwrap(), "Test Error");
}

#[test]
fn round_trip_array_header() {
    let mut d = reread(Cursor::with_capacity(16).encode_array(0, Kind::U8));
    assert_eq!(d.decode_array(Kind::U8).unwrap(), 0);
}

#[test]
fn round_trip_map_header() {
    let mut d = reread(Cursor::with_capacity(16).encode_map(7, Kind::String, Kind::U64));
    assert_eq!(d.decode_map(Kind::String, Kind::U64).unwrap(), 7);
}

#[test]
fn tag_rewind_scalar() {
    // A mismatched decode leaves the position where it was, so the right
    // decode succeeds at the same spot afterwards.
    let mut d = reread(Cursor::with_capacity(16).encode_u32(1024));
    let before = d.position();
    assert_eq!(d.decode_bool(), Err(DecodingError::InvalidBool));
    assert_eq!(d.position(), before);
    assert_eq!(d.decode_u16(), Err(DecodingError::InvalidU16));
    assert_eq!(d.position(), before);
    assert_eq!(d.decode_u32().unwrap(), 1024);
}

#[test]
fn tag_rewind_none_probe() {
    let mut d = reread(Cursor::with_capacity(16).encode_u8(7));
    assert!(!d.decode_none());
    assert_eq!(d.position(), 0);
    assert_eq!(d.decode_u8().unwrap(), 7);
}

#[test]
fn tag_rewind_error() {
    // decode_error checks two tag bytes and restores both on a mismatch.
    let mut d = reread(Cursor::with_capacity(16).encode_string("hi"));
    assert_eq!(d.decode_error(), Err(DecodingError::InvalidError));
    assert_eq!(d.position(), 0);
    assert_eq!(d.decode_string().unwrap(), "hi");
}

#[test]
fn varint_boundary_lengths() {
    // u32::MAX takes exactly five groups, zero exactly one.
    let e = Cursor::with_capacity(16).encode_u32(u32::MAX);
    assert_eq!(e.position(), 1 + 5);
    assert_eq!(e.get_ref()[1..], [0xFF, 0xFF, 0xFF, 0xFF, 0x0F]);
    let e = Cursor::with_capacity(16).encode_u32(0);
    assert_eq!(e.position(), 1 + 1);
    assert_eq!(e.get_ref()[1..], [0x00]);
}

#[test]
fn varint_overlong_rejected() {
    // Five continuation-flagged groups exhaust a u32's budget without a
    // terminator: the stream is malformed for that width.
    let mut d = Cursor::new(vec![0x0a, 0x80, 0x80, 0x80, 0x80, 0x80, 0x00]);
    assert_eq!(d.decode_u32(), Err(DecodingError::InvalidU32));
    // The same groups terminate fine under a u64's budget of ten.
    let mut d = Cursor::new(vec![0x0b, 0x80, 0x80, 0x80, 0x80, 0x80, 0x00]);
    assert_eq!(d.decode_u64().unwrap(), 0);
}

#[test]
fn varint_truncated_rejected() {
    let mut d = Cursor::new(vec![0x0a, 0xFF, 0xFF]);
    assert_eq!(d.decode_u32(), Err(DecodingError::InvalidU32));
}

#[test]
fn zigzag_minimal_magnitude() {
    // Small magnitudes of either sign take one group on the wire.
    for v in [-64i32, -1, 0, 1, 63] {
        let e = Cursor::with_capacity(16).encode_i32(v);
        assert_eq!(e.position(), 2);
    }
    let e = Cursor::with_capacity(16).encode_i32(-1);
    assert_eq!(e.get_ref()[1..], [0x01]);
    let e = Cursor::with_capacity(16).encode_i32(1);
    assert_eq!(e.get_ref()[1..], [0x02]);
}

#[test]
fn array_kind_mismatch_rewinds() {
    // An array declared with String elements is refused when U32 is
    // expected, without consuming the length or any elements.
    let buf = Cursor::with_capacity(64)
        .encode_array(2, Kind::String)
        .encode_string("a")
        .encode_string("b")
        .into_vec();
    let mut d = Cursor::new(buf);
    assert_eq!(d.decode_array(Kind::U32), Err(DecodingError::InvalidArray));
    assert_eq!(d.position(), 1);
}

#[test]
fn map_kind_mismatch_rewinds() {
    let buf = Cursor::with_capacity(64)
        .encode_map(1, Kind::String, Kind::U32)
        .into_vec();
    let mut d = Cursor::new(buf);
    assert_eq!(
        d.decode_map(Kind::String, Kind::U64),
        Err(DecodingError::InvalidMap)
    );
    assert_eq!(d.position(), 2);
}

#[test]
fn string_scenario() {
    // A String tag, a nested u32 length of 11, and the UTF-8 bytes of
    // "Test String" decode to exactly that string.
    let mut buf = vec![0x05, 0x0a, 11];
    buf.extend_from_slice("Test String".as_bytes());
    let mut d = Cursor::new(buf);
    assert_eq!(d.decode_string().unwrap(), "Test String");
}

#[test]
fn invalid_utf8_rejected() {
    // A well-framed payload that is not valid UTF-8 fails with the
    // string error, not a truncation.
    let mut d = Cursor::new(vec![0x05, 0x0a, 0x02, 0xFF, 0xFE]);
    assert_eq!(d.decode_string(), Err(DecodingError::InvalidString));
    // The same payload is fine as a byte string.
    let mut d = Cursor::new(vec![0x04, 0x0a, 0x02, 0xFF, 0xFE]);
    assert_eq!(d.decode_bytes().unwrap(), vec![0xFF, 0xFE]);
}

#[test]
fn truncated_payloads_rejected() {
    let mut d = Cursor::new(vec![0x04, 0x0a, 0x05, 0x01]);
    assert_eq!(d.decode_bytes(), Err(DecodingError::InvalidBytes));
    let mut d = Cursor::new(vec![0x05, 0x0a, 0x05, 0x01]);
    assert_eq!(d.decode_string(), Err(DecodingError::InvalidString));
    let mut d = Cursor::new(vec![0x06, 0x05, 0x0a, 0x05, 0x01]);
    assert_eq!(d.decode_error(), Err(DecodingError::InvalidError));
    let mut d = Cursor::new(vec![0x0e, 0x01, 0x02]);
    assert_eq!(d.decode_f32_bits(), Err(DecodingError::InvalidF32));
    let mut d = Cursor::new(vec![0x0f, 0x01, 0x02]);
    assert_eq!(d.decode_f64_bits(), Err(DecodingError::InvalidF64));
    let mut d = Cursor::new(vec![0x07]);
    assert_eq!(d.decode_bool(), Err(DecodingError::InvalidBool));
    let mut d = Cursor::new(vec![0x08]);
    assert_eq!(d.decode_u8(), Err(DecodingError::InvalidU8));
}

#[test]
fn wrong_tags_rejected() {
    let mut d = Cursor::new(vec![0x03]);
    assert_eq!(d.decode_u8(), Err(DecodingError::InvalidU8));
    assert_eq!(d.decode_u16(), Err(DecodingError::InvalidU16));
    assert_eq!(d.decode_u64(), Err(DecodingError::InvalidU64));
    assert_eq!(d.decode_i32(), Err(DecodingError::InvalidI32));
    assert_eq!(d.decode_i64(), Err(DecodingError::InvalidI64));
    assert_eq!(d.decode_bytes(), Err(DecodingError::InvalidBytes));
    assert_eq!(d.decode_string(), Err(DecodingError::InvalidString));
    assert_eq!(d.position(), 0);
    // Composite headers read their header bytes before checking and give
    // one of them back, leaving the cursor one byte in.
    let mut d = Cursor::new(vec![0x03, 0x03, 0x03, 0x03]);
    assert_eq!(d.decode_array(Kind::U8), Err(DecodingError::InvalidArray));
    assert_eq!(d.position(), 1);
    let mut d = Cursor::new(vec![0x03, 0x03, 0x03, 0x03]);
    assert_eq!(
        d.decode_map(Kind::U8, Kind::U8),
        Err(DecodingError::InvalidMap)
    );
    assert_eq!(d.position(), 2);
}

#[test]
fn empty_buffer_rejected() {
    let mut d = Cursor::new(vec![]);
    assert!(!d.decode_none());
    assert_eq!(d.position(), 0);
    assert_eq!(d.decode_u32(), Err(DecodingError::InvalidU32));
    assert_eq!(d.decode_string(), Err(DecodingError::InvalidString));
}

#[test]
fn chained_values_decode_in_order() {
    let buf = Cursor::with_capacity(64)
        .encode_none()
        .encode_bool(true)
        .encode_u32(300)
        .encode_string("x")
        .into_vec();
    let mut d = Cursor::new(buf);
    assert!(d.decode_none());
    assert_eq!(d.decode_bool().unwrap(), true);
    assert_eq!(d.decode_u32().unwrap(), 300);
    assert_eq!(d.decode_string().unwrap(), "x");
}
