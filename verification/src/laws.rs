//! The codec's laws: properties that relate the writer and the reader.
//!
//! Each round-trip lemma says that wherever the encoding of a value sits
//! in a stream, the matching decode operation at its start yields exactly
//! that value back and moves the cursor exactly past the encoding — the
//! two sides of the codec agree through the byte format alone.

use vstd::prelude::*;
use crate::kind::{Kind, spec_tag, spec_kind_of};
use crate::wire::{varint_enc, parse_varint, pow128};
use crate::wire::{lemma_parse_varint_enc, lemma_varint_enc_len};
use crate::wire::{zigzag32, unzigzag32, zigzag64, unzigzag64};
use crate::wire::{dec_uint, dec_uint_used, VARINT_LEN16, VARINT_LEN32, VARINT_LEN64};
use crate::wire::{enc_none, enc_bool, enc_u8, enc_u16, enc_u32, enc_u64, enc_i32, enc_i64};
use crate::wire::{enc_f32_bits, enc_f64_bits, enc_bytes, enc_string, enc_error};
use crate::wire::{enc_array_header, enc_map_header};
use crate::wire::{dec_none, dec_bool, dec_bool_used, dec_u8, dec_u8_used};
use crate::wire::{dec_u16, dec_u16_used, dec_u32, dec_u32_used, dec_u64, dec_u64_used};
use crate::wire::{dec_i32, dec_i32_used, dec_i64, dec_i64_used};
use crate::wire::{dec_f32_bits, dec_f32_used, dec_f64_bits, dec_f64_used};
use crate::wire::{dec_bytes, dec_bytes_used, dec_string, dec_string_used};
use crate::wire::{dec_error_msg, dec_error_used, dec_array, dec_array_used, dec_map, dec_map_used};
use vstd::utf8::{encode_utf8, encode_utf8_valid_utf8, encode_utf8_decode_utf8};

verus! {

/// Zigzag symmetry, 32 bits: decoding undoes encoding for every signed
/// value, and the encoded magnitude is minimal: `2|v|` or `2|v| - 1`.
pub proof fn lemma_zigzag32_round_trip(v: i32)
    ensures
        unzigzag32(zigzag32(v)) == v,
        v >= 0 ==> zigzag32(v) == 2 * v,
        v < 0 ==> zigzag32(v) == -2 * (v as int) - 1,
{
}

/// Zigzag symmetry, 64 bits.
pub proof fn lemma_zigzag64_round_trip(v: i64)
    ensures
        unzigzag64(zigzag64(v)) == v,
        v >= 0 ==> zigzag64(v) == 2 * v,
        v < 0 ==> zigzag64(v) == -2 * (v as int) - 1,
{
}

/// The registry is bidirectional: every kind with a wire tag is named by
/// its own tag byte, and every registered tag byte round-trips through
/// the kind it names.
pub proof fn lemma_kind_tag_bijection()
    ensures
        forall|k: Kind| k != Kind::Unknown ==> #[trigger] spec_kind_of(spec_tag(k)) == k,
        forall|b: u8| b <= 0x0f ==> #[trigger] spec_tag(spec_kind_of(b)) == b,
{
}

/// Peeling one tagged value off the front of a stream: the first byte
/// and the remainder of an encoding that starts at `p`.
proof fn lemma_subrange_shift(s: Seq<u8>, p: int, head: u8, rest: Seq<u8>)
    requires
        0 <= p,
        p + 1 + rest.len() <= s.len(),
        s.subrange(p, p + 1 + rest.len()) == seq![head] + rest,
    ensures
        s[p] == head,
        s.subrange(p + 1, p + 1 + rest.len()) == rest,
{
    assert(s.subrange(p, p + 1 + rest.len())[0] == s[p]);
    assert forall|i: int| 0 <= i < rest.len() implies s.subrange(p + 1, p + 1 + rest.len())[i]
        == rest[i] by {
        assert(s.subrange(p, p + 1 + rest.len())[i + 1] == s[p + 1 + i]);
    }
    assert(s.subrange(p + 1, p + 1 + rest.len()) =~= rest);
}

/// A tagged varint read finds exactly the value whose encoding follows
/// the tag.
proof fn lemma_dec_enc_uint(s: Seq<u8>, p: int, tag: u8, max: int, v: nat)
    requires
        0 <= p,
        varint_enc(v).len() <= max,
        p + 1 + varint_enc(v).len() <= s.len(),
        s[p] == tag,
        s.subrange(p + 1, p + 1 + varint_enc(v).len()) == varint_enc(v),
    ensures
        dec_uint(s, p, tag, max) == Some(v),
        dec_uint_used(s, p, tag, max) == 1 + varint_enc(v).len(),
{
    lemma_parse_varint_enc(s, p + 1, max, v);
}

/// `pow128` at the group budgets of the three integer widths.
proof fn lemma_pow128_budgets()
    ensures
        pow128(3) == 0x200000,
        pow128(5) == 0x800000000,
        pow128(10) == 0x400000000000000000,
{
    reveal_with_fuel(pow128, 11);
}

/// Round trip for the absent value: wherever its encoding sits, the
/// probe sees it.
pub proof fn lemma_round_trip_none(s: Seq<u8>, p: int)
    requires
        0 <= p,
        p + enc_none().len() <= s.len(),
        s.subrange(p, p + enc_none().len()) == enc_none(),
    ensures
        dec_none(s, p),
{
    assert(s.subrange(p, p + 1)[0] == s[p]);
}

/// Round trip for booleans.
pub proof fn lemma_round_trip_bool(s: Seq<u8>, p: int, v: bool)
    requires
        0 <= p,
        p + enc_bool(v).len() <= s.len(),
        s.subrange(p, p + enc_bool(v).len()) == enc_bool(v),
    ensures
        dec_bool(s, p) == Some(v),
        dec_bool_used(s, p) == enc_bool(v).len(),
{
    assert(s.subrange(p, p + 2)[0] == s[p]);
    assert(s.subrange(p, p + 2)[1] == s[p + 1]);
}

/// Round trip for `u8`.
pub proof fn lemma_round_trip_u8(s: Seq<u8>, p: int, v: u8)
    requires
        0 <= p,
        p + enc_u8(v).len() <= s.len(),
        s.subrange(p, p + enc_u8(v).len()) == enc_u8(v),
    ensures
        dec_u8(s, p) == Some(v),
        dec_u8_used(s, p) == enc_u8(v).len(),
{
    assert(s.subrange(p, p + 2)[0] == s[p]);
    assert(s.subrange(p, p + 2)[1] == s[p + 1]);
}

/// Round trip for `u16`.
pub proof fn lemma_round_trip_u16(s: Seq<u8>, p: int, v: u16)
    requires
        0 <= p,
        p + enc_u16(v).len() <= s.len(),
        s.subrange(p, p + enc_u16(v).len()) == enc_u16(v),
    ensures
        dec_u16(s, p) == Some(v),
        dec_u16_used(s, p) == enc_u16(v).len(),
{
    lemma_pow128_budgets();
    lemma_varint_enc_len(v as nat, 3);
    lemma_subrange_shift(s, p, spec_tag(Kind::U16), varint_enc(v as nat));
    lemma_dec_enc_uint(s, p, spec_tag(Kind::U16), VARINT_LEN16 as int, v as nat);
}

/// Round trip for `u32`.
pub proof fn lemma_round_trip_u32(s: Seq<u8>, p: int, v: u32)
    requires
        0 <= p,
        p + enc_u32(v).len() <= s.len(),
        s.subrange(p, p + enc_u32(v).len()) == enc_u32(v),
    ensures
        dec_u32(s, p) == Some(v),
        dec_u32_used(s, p) == enc_u32(v).len(),
{
    lemma_pow128_budgets();
    lemma_varint_enc_len(v as nat, 5);
    lemma_subrange_shift(s, p, spec_tag(Kind::U32), varint_enc(v as nat));
    lemma_dec_enc_uint(s, p, spec_tag(Kind::U32), VARINT_LEN32 as int, v as nat);
}

/// Round trip for `u64`.
pub proof fn lemma_round_trip_u64(s: Seq<u8>, p: int, v: u64)
    requires
        0 <= p,
        p + enc_u64(v).len() <= s.len(),
        s.subrange(p, p + enc_u64(v).len()) == enc_u64(v),
    ensures
        dec_u64(s, p) == Some(v),
        dec_u64_used(s, p) == enc_u64(v).len(),
{
    lemma_pow128_budgets();
    lemma_varint_enc_len(v as nat, 10);
    lemma_subrange_shift(s, p, spec_tag(Kind::U64), varint_enc(v as nat));
    lemma_dec_enc_uint(s, p, spec_tag(Kind::U64), VARINT_LEN64 as int, v as nat);
}

/// Round trip for `i32`: the varint carries the zigzag image, and the
/// inverse transform restores the signed value.
pub proof fn lemma_round_trip_i32(s: Seq<u8>, p: int, v: i32)
    requires
        0 <= p,
        p + enc_i32(v).len() <= s.len(),
        s.subrange(p, p + enc_i32(v).len()) == enc_i32(v),
    ensures
        dec_i32(s, p) == Some(v),
        dec_i32_used(s, p) == enc_i32(v).len(),
{
    lemma_pow128_budgets();
    lemma_varint_enc_len(zigzag32(v) as nat, 5);
    lemma_subrange_shift(s, p, spec_tag(Kind::I32), varint_enc(zigzag32(v) as nat));
    lemma_dec_enc_uint(s, p, spec_tag(Kind::I32), VARINT_LEN32 as int, zigzag32(v) as nat);
    lemma_zigzag32_round_trip(v);
}

/// Round trip for `i64`.
pub proof fn lemma_round_trip_i64(s: Seq<u8>, p: int, v: i64)
    requires
        0 <= p,
        p + enc_i64(v).len() <= s.len(),
        s.subrange(p, p + enc_i64(v).len()) == enc_i64(v),
    ensures
        dec_i64(s, p) == Some(v),
        dec_i64_used(s, p) == enc_i64(v).len(),
{
    lemma_pow128_budgets();
    lemma_varint_enc_len(zigzag64(v) as nat, 10);
    lemma_subrange_shift(s, p, spec_tag(Kind::I64), varint_enc(zigzag64(v) as nat));
    lemma_dec_enc_uint(s, p, spec_tag(Kind::I64), VARINT_LEN64 as int, zigzag64(v) as nat);
    lemma_zigzag64_round_trip(v);
}

/// Round trip for `f32` bit patterns: four big-endian digits recompose
/// to the word they were cut from.
pub proof fn lemma_round_trip_f32_bits(s: Seq<u8>, p: int, bits: u32)
    requires
        0 <= p,
        p + enc_f32_bits(bits).len() <= s.len(),
        s.subrange(p, p + enc_f32_bits(bits).len()) == enc_f32_bits(bits),
    ensures
        dec_f32_bits(s, p) == Some(bits),
        dec_f32_used(s, p) == enc_f32_bits(bits).len(),
{
    assert(s.subrange(p, p + 5)[0] == s[p]);
    assert(s.subrange(p, p + 5)[1] == s[p + 1]);
    assert(s.subrange(p, p + 5)[2] == s[p + 2]);
    assert(s.subrange(p, p + 5)[3] == s[p + 3]);
    assert(s.subrange(p, p + 5)[4] == s[p + 4]);
    assert((bits / 0x1000000 % 0x100) * 0x1000000 + (bits / 0x10000 % 0x100) * 0x10000 + (bits
        / 0x100 % 0x100) * 0x100 + bits % 0x100 == bits) by (bit_vector);
}

/// Round trip for `f64` bit patterns.
pub proof fn lemma_round_trip_f64_bits(s: Seq<u8>, p: int, bits: u64)
    requires
        0 <= p,
        p + enc_f64_bits(bits).len() <= s.len(),
        s.subrange(p, p + enc_f64_bits(bits).len()) == enc_f64_bits(bits),
    ensures
        dec_f64_bits(s, p) == Some(bits),
        dec_f64_used(s, p) == enc_f64_bits(bits).len(),
{
    assert(s.subrange(p, p + 9)[0] == s[p]);
    assert(s.subrange(p, p + 9)[1] == s[p + 1]);
    assert(s.subrange(p, p + 9)[2] == s[p + 2]);
    assert(s.subrange(p, p + 9)[3] == s[p + 3]);
    assert(s.subrange(p, p + 9)[4] == s[p + 4]);
    assert(s.subrange(p, p + 9)[5] == s[p + 5]);
    assert(s.subrange(p, p + 9)[6] == s[p + 6]);
    assert(s.subrange(p, p + 9)[7] == s[p + 7]);
    assert(s.subrange(p, p + 9)[8] == s[p + 8]);
    assert((bits / 0x100000000000000 % 0x100) * 0x100000000000000 + (bits / 0x1000000000000
        % 0x100) * 0x1000000000000 + (bits / 0x10000000000 % 0x100) * 0x10000000000 + (bits
        / 0x100000000 % 0x100) * 0x100000000 + (bits / 0x1000000 % 0x100) * 0x1000000 + (bits
        / 0x10000 % 0x100) * 0x10000 + (bits / 0x100 % 0x100) * 0x100 + bits % 0x100 == bits)
        by (bit_vector);
}

/// Round trip for byte strings: the length field and every payload byte
/// come back exactly.
pub proof fn lemma_round_trip_bytes(s: Seq<u8>, p: int, b: Seq<u8>)
    requires
        0 <= p,
        b.len() <= u32::MAX,
        p + enc_bytes(b).len() <= s.len(),
        s.subrange(p, p + enc_bytes(b).len()) == enc_bytes(b),
    ensures
        dec_bytes(s, p) == Some(b),
        dec_bytes_used(s, p) == enc_bytes(b).len(),
{
    let n = b.len() as u32;
    let body = enc_u32(n) + b;
    assert(enc_bytes(b) == seq![spec_tag(Kind::Bytes)] + body);
    lemma_subrange_shift(s, p, spec_tag(Kind::Bytes), body);
    let q0 = p + 1;
    assert(s.subrange(q0, q0 + enc_u32(n).len()) == enc_u32(n)) by {
        assert forall|i: int| 0 <= i < enc_u32(n).len() implies s.subrange(
            q0,
            q0 + enc_u32(n).len(),
        )[i] == enc_u32(n)[i] by {
            assert(s.subrange(q0, q0 + body.len())[i] == s[q0 + i]);
            assert(s.subrange(q0, q0 + enc_u32(n).len())[i] == s[q0 + i]);
        }
        assert(s.subrange(q0, q0 + enc_u32(n).len()) =~= enc_u32(n));
    }
    lemma_round_trip_u32(s, q0, n);
    let q = q0 + dec_u32_used(s, q0);
    assert(q == q0 + enc_u32(n).len());
    assert(s.subrange(q, q + b.len()) == b) by {
        assert forall|i: int| 0 <= i < b.len() implies s.subrange(q, q + b.len())[i] == b[i] by {
            assert(s.subrange(q0, q0 + body.len())[enc_u32(n).len() + i] == s[q + i]);
        }
        assert(s.subrange(q, q + b.len()) =~= b);
    }
}

/// Round trip for text strings: the UTF-8 payload is valid by
/// construction and decodes to the characters that were encoded.
pub proof fn lemma_round_trip_string(s: Seq<u8>, p: int, t: Seq<char>)
    requires
        0 <= p,
        encode_utf8(t).len() <= u32::MAX,
        p + enc_string(t).len() <= s.len(),
        s.subrange(p, p + enc_string(t).len()) == enc_string(t),
    ensures
        dec_string(s, p) == Some(t),
        dec_string_used(s, p) == enc_string(t).len(),
{
    let bytes = encode_utf8(t);
    let n = bytes.len() as u32;
    let body = enc_u32(n) + bytes;
    assert(enc_string(t) == seq![spec_tag(Kind::String)] + body);
    lemma_subrange_shift(s, p, spec_tag(Kind::String), body);
    let q0 = p + 1;
    assert(s.subrange(q0, q0 + enc_u32(n).len()) == enc_u32(n)) by {
        assert forall|i: int| 0 <= i < enc_u32(n).len() implies s.subrange(
            q0,
            q0 + enc_u32(n).len(),
        )[i] == enc_u32(n)[i] by {
            assert(s.subrange(q0, q0 + body.len())[i] == s[q0 + i]);
            assert(s.subrange(q0, q0 + enc_u32(n).len())[i] == s[q0 + i]);
        }
        assert(s.subrange(q0, q0 + enc_u32(n).len()) =~= enc_u32(n));
    }
    lemma_round_trip_u32(s, q0, n);
    let q = q0 + dec_u32_used(s, q0);
    assert(q == q0 + enc_u32(n).len());
    assert(s.subrange(q, q + bytes.len()) == bytes) by {
        assert forall|i: int| 0 <= i < bytes.len() implies s.subrange(q, q + bytes.len())[i]
            == bytes[i] by {
            assert(s.subrange(q0, q0 + body.len())[enc_u32(n).len() + i] == s[q + i]);
        }
        assert(s.subrange(q, q + bytes.len()) =~= bytes);
    }
    encode_utf8_valid_utf8(t);
    encode_utf8_decode_utf8(t);
}

/// Round trip for error values: the message travels as a string after
/// the `Error` tag.
pub proof fn lemma_round_trip_error(s: Seq<u8>, p: int, t: Seq<char>)
    requires
        0 <= p,
        encode_utf8(t).len() <= u32::MAX,
        p + enc_error(t).len() <= s.len(),
        s.subrange(p, p + enc_error(t).len()) == enc_error(t),
    ensures
        dec_error_msg(s, p) == Some(t),
        dec_error_used(s, p) == enc_error(t).len(),
{
    assert(enc_error(t) == seq![spec_tag(Kind::Error)] + enc_string(t));
    lemma_subrange_shift(s, p, spec_tag(Kind::Error), enc_string(t));
    lemma_round_trip_string(s, p + 1, t);
    assert(s[p + 1] == spec_tag(Kind::String)) by {
        assert(s.subrange(p + 1, p + 1 + enc_string(t).len())[0] == s[p + 1]);
        assert(enc_string(t)[0] == spec_tag(Kind::String));
    }
}

/// Round trip for array headers: the declared element kind and length
/// come back exactly when the reader expects that kind.
pub proof fn lemma_round_trip_array_header(s: Seq<u8>, p: int, len: u32, val_kind: Kind)
    requires
        0 <= p,
        p + enc_array_header(len, val_kind).len() <= s.len(),
        s.subrange(p, p + enc_array_header(len, val_kind).len()) == enc_array_header(
            len,
            val_kind,
        ),
    ensures
        dec_array(s, p, val_kind) == Some(len),
        dec_array_used(s, p, val_kind) == enc_array_header(len, val_kind).len(),
{
    let hd = enc_array_header(len, val_kind);
    assert(s.subrange(p, p + hd.len())[0] == s[p]);
    assert(s.subrange(p, p + hd.len())[1] == s[p + 1]);
    assert(s[p] == spec_tag(Kind::Array));
    assert(s[p + 1] == spec_tag(val_kind));
    assert(s.subrange(p + 2, p + 2 + enc_u32(len).len()) == enc_u32(len)) by {
        assert forall|i: int| 0 <= i < enc_u32(len).len() implies s.subrange(
            p + 2,
            p + 2 + enc_u32(len).len(),
        )[i] == enc_u32(len)[i] by {
            assert(s.subrange(p, p + hd.len())[2 + i] == s[p + 2 + i]);
        }
        assert(s.subrange(p + 2, p + 2 + enc_u32(len).len()) =~= enc_u32(len));
    }
    lemma_round_trip_u32(s, p + 2, len);
}

/// Round trip for map headers.
pub proof fn lemma_round_trip_map_header(
    s: Seq<u8>,
    p: int,
    len: u32,
    key_kind: Kind,
    val_kind: Kind,
)
    requires
        0 <= p,
        p + enc_map_header(len, key_kind, val_kind).len() <= s.len(),
        s.subrange(p, p + enc_map_header(len, key_kind, val_kind).len()) == enc_map_header(
            len,
            key_kind,
            val_kind,
        ),
    ensures
        dec_map(s, p, key_kind, val_kind) == Some(len),
        dec_map_used(s, p, key_kind, val_kind) == enc_map_header(len, key_kind, val_kind).len(),
{
    let hd = enc_map_header(len, key_kind, val_kind);
    assert(s.subrange(p, p + hd.len())[0] == s[p]);
    assert(s.subrange(p, p + hd.len())[1] == s[p + 1]);
    assert(s.subrange(p, p + hd.len())[2] == s[p + 2]);
    assert(s[p] == spec_tag(Kind::Mapping));
    assert(s[p + 1] == spec_tag(key_kind));
    assert(s[p + 2] == spec_tag(val_kind));
    assert(s.subrange(p + 3, p + 3 + enc_u32(len).len()) == enc_u32(len)) by {
        assert forall|i: int| 0 <= i < enc_u32(len).len() implies s.subrange(
            p + 3,
            p + 3 + enc_u32(len).len(),
        )[i] == enc_u32(len)[i] by {
            assert(s.subrange(p, p + hd.len())[3 + i] == s[p + 3 + i]);
        }
        assert(s.subrange(p + 3, p + 3 + enc_u32(len).len()) =~= enc_u32(len));
    }
    lemma_round_trip_u32(s, p + 3, len);
}

/// Varint boundary: zero takes exactly one group, the largest 32-bit
/// value exactly five.
pub proof fn lemma_varint_boundary()
    ensures
        varint_enc(0).len() == 1,
        varint_enc(0xffffffff).len() == 5,
{
    reveal_with_fuel(varint_enc, 6);
    assert(varint_enc(0xffffffff).len() == 5) by {
        assert(varint_enc(0xffffffff) == seq![0xffu8] + varint_enc(0x1ffffff));
        assert(varint_enc(0x1ffffff) == seq![0xffu8] + varint_enc(0x3ffff));
        assert(varint_enc(0x3ffff) == seq![0xffu8] + varint_enc(0x7ff));
        assert(varint_enc(0x7ff) == seq![0xffu8] + varint_enc(0xf));
        assert(varint_enc(0xf) == seq![0xfu8]);
    }
}

/// A run of continuation-flagged groups at least as long as the group
/// budget never terminates a varint read: the stream is malformed for
/// that width.
pub proof fn lemma_overlong_varint_fails(s: Seq<u8>, p: int, max: int)
    requires
        0 <= p,
        0 <= max,
        p + max <= s.len(),
        forall|i: int| p <= i < p + max ==> #[trigger] s[i] >= 128,
    ensures
        parse_varint(s, p, max) is None,
    decreases max,
{
    if max > 0 {
        assert(s[p] >= 128);
        assert forall|i: int| p + 1 <= i < p + 1 + (max - 1) implies #[trigger] s[i] >= 128 by {
            assert(p <= i < p + max);
        }
        lemma_overlong_varint_fails(s, p + 1, max - 1);
    }
}

/// Tag rewind: a decode operation that meets any byte other than its own
/// tag fails without moving the cursor, so a subsequent decode with the
/// right expectation starts from the same position.
pub proof fn lemma_tag_rewind(s: Seq<u8>, p: int)
    requires
        0 <= p < s.len(),
    ensures
        s[p] != spec_tag(Kind::Nil) ==> !dec_none(s, p),
        s[p] != spec_tag(Kind::Bool) ==> dec_bool(s, p) is None && dec_bool_used(s, p) == 0,
        s[p] != spec_tag(Kind::U8) ==> dec_u8(s, p) is None && dec_u8_used(s, p) == 0,
        s[p] != spec_tag(Kind::U16) ==> dec_u16(s, p) is None && dec_u16_used(s, p) == 0,
        s[p] != spec_tag(Kind::U32) ==> dec_u32(s, p) is None && dec_u32_used(s, p) == 0,
        s[p] != spec_tag(Kind::U64) ==> dec_u64(s, p) is None && dec_u64_used(s, p) == 0,
        s[p] != spec_tag(Kind::I32) ==> dec_i32(s, p) is None && dec_i32_used(s, p) == 0,
        s[p] != spec_tag(Kind::I64) ==> dec_i64(s, p) is None && dec_i64_used(s, p) == 0,
        s[p] != spec_tag(Kind::F32) ==> dec_f32_bits(s, p) is None && dec_f32_used(s, p) == 0,
        s[p] != spec_tag(Kind::F64) ==> dec_f64_bits(s, p) is None && dec_f64_used(s, p) == 0,
        s[p] != spec_tag(Kind::Bytes) ==> dec_bytes(s, p) is None && dec_bytes_used(s, p) == 0,
        s[p] != spec_tag(Kind::String) ==> dec_string(s, p) is None && dec_string_used(s, p)
            == 0,
        p + 1 < s.len() && (s[p] != spec_tag(Kind::Error) || s[p + 1] != spec_tag(Kind::String))
            ==> dec_error_msg(s, p) is None && dec_error_used(s, p) == 0,
{
}

/// Composite header mismatch: an array or map whose stored header kinds
/// differ from the expectation fails the whole call before the length is
/// read, with the cursor restored to one byte past where it began.
pub proof fn lemma_header_mismatch(s: Seq<u8>, p: int, k1: Kind, k2: Kind)
    requires
        0 <= p,
        p + 2 < s.len(),
    ensures
        s[p] != spec_tag(Kind::Array) || s[p + 1] != spec_tag(k1) ==> dec_array(s, p, k1)
            is None && dec_array_used(s, p, k1) == 1,
        s[p] != spec_tag(Kind::Mapping) || s[p + 1] != spec_tag(k1) || s[p + 2] != spec_tag(k2)
            ==> dec_map(s, p, k1, k2) is None && dec_map_used(s, p, k1, k2) == 2,
{
}

} // verus!
