//! The wire format, as mathematics.
//!
//! Spec-level descriptions of every construct the codec puts on the wire:
//! continuation-bit varints, the zigzag transform for signed integers,
//! big-endian fixed-width words, and the tagged encoding of each kind.
//! The reader side is described by `dec_*` functions giving, for each
//! decode operation, the value a well-formed stream yields at a position
//! and the exact number of bytes the operation moves the cursor by.

use vstd::prelude::*;
use crate::kind::{Kind, spec_tag};
use vstd::utf8::encode_utf8;
use vstd::utf8::valid_utf8;
use vstd::utf8::decode_utf8;

verus! {

/// The high bit of a varint group: set on every group except the last.
pub const CONTINUATION: u8 = 0x80;

/// Maximum group counts per integer width: a varint for a 16-bit value may
/// span at most 3 groups, a 32-bit one 5, a 64-bit one 10.
pub const VARINT_LEN16: usize = 3;

pub const VARINT_LEN32: usize = 5;

pub const VARINT_LEN64: usize = 10;

/// The varint encoding of `v`: 7 bits per group, least-significant group
/// first, the high bit set on every group but the last.
pub open spec fn varint_enc(v: nat) -> Seq<u8>
    decreases v,
{
    if v < 128 {
        seq![v as u8]
    } else {
        seq![(v % 128 + 128) as u8] + varint_enc(v / 128)
    }
}

/// Reads a varint of at most `max` groups at position `p` of `s`:
/// `Some((value, groups))` when a group with a clear high bit arrives in
/// time, `None` on truncation or when `max` groups pass without one.
/// The value is the exact sum over all groups; readers of a fixed width
/// reduce it modulo their width.
pub open spec fn parse_varint(s: Seq<u8>, p: int, max: int) -> Option<(nat, int)>
    decreases max,
{
    if p < 0 || p >= s.len() || max <= 0 {
        None
    } else if s[p] < 128 {
        Some((s[p] as nat, 1))
    } else {
        match parse_varint(s, p + 1, max - 1) {
            Some((v, n)) => Some((((s[p] - 128) + 128 * v) as nat, n + 1)),
            None => None,
        }
    }
}

/// How many bytes a varint read of at most `max` groups at `p` consumes,
/// whether or not it succeeds: every continuation-flagged group that is
/// actually present, up to `max`, plus the terminating group if reached.
pub open spec fn varint_used(s: Seq<u8>, p: int, max: int) -> int
    decreases max,
{
    if p < 0 || p >= s.len() || max <= 0 {
        0
    } else if s[p] < 128 {
        1
    } else {
        1 + varint_used(s, p + 1, max - 1)
    }
}

/// 128 to the power `k`: the number of values `k` varint groups can carry.
pub open spec fn pow128(k: nat) -> nat
    decreases k,
{
    if k == 0 {
        1
    } else {
        128 * pow128((k - 1) as nat)
    }
}

/// The zigzag image of a signed 32-bit value: non-negative `v` maps to
/// `2v`, negative `v` to `2|v| - 1`, so small magnitudes of either sign
/// stay small.
pub open spec fn zigzag32(v: i32) -> u32 {
    if v >= 0 {
        (2 * v) as u32
    } else {
        (-2 * (v as int) - 1) as u32
    }
}

/// The inverse zigzag transform for 32 bits.
pub open spec fn unzigzag32(u: u32) -> i32 {
    if u % 2 == 0 {
        (u / 2) as i32
    } else {
        (-((u / 2) as int) - 1) as i32
    }
}

/// The zigzag image of a signed 64-bit value.
pub open spec fn zigzag64(v: i64) -> u64 {
    if v >= 0 {
        (2 * v) as u64
    } else {
        (-2 * (v as int) - 1) as u64
    }
}

/// The inverse zigzag transform for 64 bits.
pub open spec fn unzigzag64(u: u64) -> i64 {
    if u % 2 == 0 {
        (u / 2) as i64
    } else {
        (-((u / 2) as int) - 1) as i64
    }
}

/// `v` as four big-endian bytes.
pub open spec fn be32(v: u32) -> Seq<u8> {
    seq![
        (v / 0x1000000 % 0x100) as u8,
        (v / 0x10000 % 0x100) as u8,
        (v / 0x100 % 0x100) as u8,
        (v % 0x100) as u8,
    ]
}

/// `v` as eight big-endian bytes.
pub open spec fn be64(v: u64) -> Seq<u8> {
    seq![
        (v / 0x100000000000000 % 0x100) as u8,
        (v / 0x1000000000000 % 0x100) as u8,
        (v / 0x10000000000 % 0x100) as u8,
        (v / 0x100000000 % 0x100) as u8,
        (v / 0x1000000 % 0x100) as u8,
        (v / 0x10000 % 0x100) as u8,
        (v / 0x100 % 0x100) as u8,
        (v % 0x100) as u8,
    ]
}

// ---------------------------------------------------------------------------
// What the writer emits, per kind.
// ---------------------------------------------------------------------------

/// The encoding of the absent value: its tag alone.
pub open spec fn enc_none() -> Seq<u8> {
    seq![spec_tag(Kind::Nil)]
}

/// The encoding of a boolean: its tag and one payload byte.
pub open spec fn enc_bool(v: bool) -> Seq<u8> {
    seq![spec_tag(Kind::Bool), if v { 1u8 } else { 0u8 }]
}

/// The encoding of a `u8`: its tag and the raw byte, with no varint framing.
pub open spec fn enc_u8(v: u8) -> Seq<u8> {
    seq![spec_tag(Kind::U8), v]
}

/// The encoding of a `u16`: its tag and the value as a varint.
pub open spec fn enc_u16(v: u16) -> Seq<u8> {
    seq![spec_tag(Kind::U16)] + varint_enc(v as nat)
}

/// The encoding of a `u32`: its tag and the value as a varint.
pub open spec fn enc_u32(v: u32) -> Seq<u8> {
    seq![spec_tag(Kind::U32)] + varint_enc(v as nat)
}

/// The encoding of a `u64`: its tag and the value as a varint.
pub open spec fn enc_u64(v: u64) -> Seq<u8> {
    seq![spec_tag(Kind::U64)] + varint_enc(v as nat)
}

/// The encoding of an `i32`: its tag and the zigzag image as a varint.
pub open spec fn enc_i32(v: i32) -> Seq<u8> {
    seq![spec_tag(Kind::I32)] + varint_enc(zigzag32(v) as nat)
}

/// The encoding of an `i64`: its tag and the zigzag image as a varint.
pub open spec fn enc_i64(v: i64) -> Seq<u8> {
    seq![spec_tag(Kind::I64)] + varint_enc(zigzag64(v) as nat)
}

/// The encoding of an `f32`, given as its IEEE-754 bit pattern: its tag
/// and the four payload bytes in big-endian order.
pub open spec fn enc_f32_bits(bits: u32) -> Seq<u8> {
    seq![spec_tag(Kind::F32)] + be32(bits)
}

/// The encoding of an `f64`, given as its IEEE-754 bit pattern: its tag
/// and the eight payload bytes in big-endian order.
pub open spec fn enc_f64_bits(bits: u64) -> Seq<u8> {
    seq![spec_tag(Kind::F64)] + be64(bits)
}

/// The encoding of a byte string: its tag, the length as a full nested
/// `u32` value, then the raw bytes.
pub open spec fn enc_bytes(b: Seq<u8>) -> Seq<u8> {
    seq![spec_tag(Kind::Bytes)] + enc_u32(b.len() as u32) + b
}

/// The encoding of a text string: its tag, the UTF-8 byte length as a
/// nested `u32`, then the UTF-8 bytes.
pub open spec fn enc_string(s: Seq<char>) -> Seq<u8> {
    seq![spec_tag(Kind::String)] + enc_u32(encode_utf8(s).len() as u32) + encode_utf8(s)
}

/// The encoding of an error value: its tag followed by the encoding of
/// its message as a string.
pub open spec fn enc_error(msg: Seq<char>) -> Seq<u8> {
    seq![spec_tag(Kind::Error)] + enc_string(msg)
}

/// The header of an array: its tag, the declared element kind's tag, and
/// the length as a nested `u32`. The elements follow, each self-tagged,
/// emitted by the caller.
pub open spec fn enc_array_header(len: u32, val_kind: Kind) -> Seq<u8> {
    seq![spec_tag(Kind::Array), spec_tag(val_kind)] + enc_u32(len)
}

/// The header of a map: its tag, the declared key and value kinds' tags,
/// and the entry count as a nested `u32`. The key/value pairs follow,
/// each self-tagged, emitted by the caller.
pub open spec fn enc_map_header(len: u32, key_kind: Kind, val_kind: Kind) -> Seq<u8> {
    seq![spec_tag(Kind::Mapping), spec_tag(key_kind), spec_tag(val_kind)] + enc_u32(len)
}

// ---------------------------------------------------------------------------
// What the reader yields, per operation.
// ---------------------------------------------------------------------------

/// The value a tagged varint read yields at `p`: the tag must match, then
/// a varint of at most `max` groups follows. The raw (un-reduced) sum is
/// returned.
pub open spec fn dec_uint(s: Seq<u8>, p: int, tag: u8, max: int) -> Option<nat> {
    if 0 <= p < s.len() && s[p] == tag {
        match parse_varint(s, p + 1, max) {
            Some((v, n)) => Some(v),
            None => None,
        }
    } else {
        None
    }
}

/// How many bytes a tagged varint read at `p` moves the cursor: none on a
/// tag mismatch (the tag byte is restored), otherwise the tag plus every
/// varint byte consumed.
pub open spec fn dec_uint_used(s: Seq<u8>, p: int, tag: u8, max: int) -> int {
    if 0 <= p < s.len() && s[p] == tag {
        1 + varint_used(s, p + 1, max)
    } else {
        0
    }
}

/// The value `decode_u16` yields at `p`.
pub open spec fn dec_u16(s: Seq<u8>, p: int) -> Option<u16> {
    match dec_uint(s, p, spec_tag(Kind::U16), VARINT_LEN16 as int) {
        Some(v) => Some((v % 0x10000) as u16),
        None => None,
    }
}

/// How many bytes `decode_u16` moves the cursor at `p`.
pub open spec fn dec_u16_used(s: Seq<u8>, p: int) -> int {
    dec_uint_used(s, p, spec_tag(Kind::U16), VARINT_LEN16 as int)
}

/// The value `decode_u32` yields at `p`.
pub open spec fn dec_u32(s: Seq<u8>, p: int) -> Option<u32> {
    match dec_uint(s, p, spec_tag(Kind::U32), VARINT_LEN32 as int) {
        Some(v) => Some((v % 0x100000000) as u32),
        None => None,
    }
}

/// How many bytes `decode_u32` moves the cursor at `p`.
pub open spec fn dec_u32_used(s: Seq<u8>, p: int) -> int {
    dec_uint_used(s, p, spec_tag(Kind::U32), VARINT_LEN32 as int)
}

/// The value `decode_u64` yields at `p`.
pub open spec fn dec_u64(s: Seq<u8>, p: int) -> Option<u64> {
    match dec_uint(s, p, spec_tag(Kind::U64), VARINT_LEN64 as int) {
        Some(v) => Some((v % 0x10000000000000000) as u64),
        None => None,
    }
}

/// How many bytes `decode_u64` moves the cursor at `p`.
pub open spec fn dec_u64_used(s: Seq<u8>, p: int) -> int {
    dec_uint_used(s, p, spec_tag(Kind::U64), VARINT_LEN64 as int)
}

/// The value `decode_i32` yields at `p`: the varint sum reduced to 32
/// bits, then sent back through the zigzag transform.
pub open spec fn dec_i32(s: Seq<u8>, p: int) -> Option<i32> {
    match dec_uint(s, p, spec_tag(Kind::I32), VARINT_LEN32 as int) {
        Some(v) => Some(unzigzag32((v % 0x100000000) as u32)),
        None => None,
    }
}

/// How many bytes `decode_i32` moves the cursor at `p`.
pub open spec fn dec_i32_used(s: Seq<u8>, p: int) -> int {
    dec_uint_used(s, p, spec_tag(Kind::I32), VARINT_LEN32 as int)
}

/// The value `decode_i64` yields at `p`.
pub open spec fn dec_i64(s: Seq<u8>, p: int) -> Option<i64> {
    match dec_uint(s, p, spec_tag(Kind::I64), VARINT_LEN64 as int) {
        Some(v) => Some(unzigzag64((v % 0x10000000000000000) as u64)),
        None => None,
    }
}

/// How many bytes `decode_i64` moves the cursor at `p`.
pub open spec fn dec_i64_used(s: Seq<u8>, p: int) -> int {
    dec_uint_used(s, p, spec_tag(Kind::I64), VARINT_LEN64 as int)
}

/// Whether `decode_none` consumes the probed byte: exactly when a byte is
/// present and is the `None` tag.
pub open spec fn dec_none(s: Seq<u8>, p: int) -> bool {
    0 <= p < s.len() && s[p] == spec_tag(Kind::Nil)
}

/// The value `decode_bool` yields at `p`: one payload byte after the tag,
/// true exactly for the byte 1.
pub open spec fn dec_bool(s: Seq<u8>, p: int) -> Option<bool> {
    if 0 <= p && p + 1 < s.len() && s[p] == spec_tag(Kind::Bool) {
        Some(s[p + 1] == 1)
    } else {
        None
    }
}

/// How many bytes `decode_bool` moves the cursor at `p`: none on a tag
/// mismatch, one when the payload is missing, two on success.
pub open spec fn dec_bool_used(s: Seq<u8>, p: int) -> int {
    if 0 <= p < s.len() && s[p] == spec_tag(Kind::Bool) {
        if p + 1 < s.len() {
            2
        } else {
            1
        }
    } else {
        0
    }
}

/// The value `decode_u8` yields at `p`: the raw payload byte after the tag.
pub open spec fn dec_u8(s: Seq<u8>, p: int) -> Option<u8> {
    if 0 <= p && p + 1 < s.len() && s[p] == spec_tag(Kind::U8) {
        Some(s[p + 1])
    } else {
        None
    }
}

/// How many bytes `decode_u8` moves the cursor at `p`.
pub open spec fn dec_u8_used(s: Seq<u8>, p: int) -> int {
    if 0 <= p < s.len() && s[p] == spec_tag(Kind::U8) {
        if p + 1 < s.len() {
            2
        } else {
            1
        }
    } else {
        0
    }
}

/// The bit pattern `decode_f32_bits` yields at `p`: four big-endian
/// payload bytes after the tag.
pub open spec fn dec_f32_bits(s: Seq<u8>, p: int) -> Option<u32> {
    if 0 <= p && p + 5 <= s.len() && s[p] == spec_tag(Kind::F32) {
        Some(
            (s[p + 1] * 0x1000000 + s[p + 2] * 0x10000 + s[p + 3] * 0x100 + s[p + 4]) as u32,
        )
    } else {
        None
    }
}

/// How many bytes `decode_f32_bits` moves the cursor at `p`: none on a
/// tag mismatch, the available payload prefix on truncation, five on
/// success.
pub open spec fn dec_f32_used(s: Seq<u8>, p: int) -> int {
    if 0 <= p < s.len() && s[p] == spec_tag(Kind::F32) {
        if p + 5 <= s.len() {
            5
        } else {
            s.len() - p
        }
    } else {
        0
    }
}

/// The bit pattern `decode_f64_bits` yields at `p`: eight big-endian
/// payload bytes after the tag.
pub open spec fn dec_f64_bits(s: Seq<u8>, p: int) -> Option<u64> {
    if 0 <= p && p + 9 <= s.len() && s[p] == spec_tag(Kind::F64) {
        Some(
            (s[p + 1] * 0x100000000000000 + s[p + 2] * 0x1000000000000 + s[p + 3] * 0x10000000000
                + s[p + 4] * 0x100000000 + s[p + 5] * 0x1000000 + s[p + 6] * 0x10000 + s[p
                + 7] * 0x100 + s[p + 8]) as u64,
        )
    } else {
        None
    }
}

/// How many bytes `decode_f64_bits` moves the cursor at `p`.
pub open spec fn dec_f64_used(s: Seq<u8>, p: int) -> int {
    if 0 <= p < s.len() && s[p] == spec_tag(Kind::F64) {
        if p + 9 <= s.len() {
            9
        } else {
            s.len() - p
        }
    } else {
        0
    }
}

/// The payload `decode_bytes` yields at `p`: after the tag, a nested
/// `u32` length, then exactly that many raw bytes.
pub open spec fn dec_bytes(s: Seq<u8>, p: int) -> Option<Seq<u8>> {
    if 0 <= p < s.len() && s[p] == spec_tag(Kind::Bytes) {
        match dec_u32(s, p + 1) {
            Some(size) => {
                let q = p + 1 + dec_u32_used(s, p + 1);
                if q + size as int <= s.len() {
                    Some(s.subrange(q, q + size as int))
                } else {
                    None
                }
            },
            None => None,
        }
    } else {
        None
    }
}

/// How many bytes `decode_bytes` moves the cursor at `p`: none on a tag
/// mismatch; past the length field on a bad length; past the whole value
/// on success; a truncated payload is not consumed.
pub open spec fn dec_bytes_used(s: Seq<u8>, p: int) -> int {
    if 0 <= p < s.len() && s[p] == spec_tag(Kind::Bytes) {
        let q = p + 1 + dec_u32_used(s, p + 1);
        match dec_u32(s, p + 1) {
            Some(size) => if q + size as int <= s.len() {
                q + size as int - p
            } else {
                q - p
            },
            None => q - p,
        }
    } else {
        0
    }
}

/// The text `decode_string` yields at `p`: a byte-string payload after
/// the `String` tag, which must moreover be valid UTF-8.
pub open spec fn dec_string(s: Seq<u8>, p: int) -> Option<Seq<char>> {
    if 0 <= p < s.len() && s[p] == spec_tag(Kind::String) {
        match dec_u32(s, p + 1) {
            Some(size) => {
                let q = p + 1 + dec_u32_used(s, p + 1);
                if q + size as int <= s.len() && valid_utf8(s.subrange(q, q + size as int)) {
                    Some(decode_utf8(s.subrange(q, q + size as int)))
                } else {
                    None
                }
            },
            None => None,
        }
    } else {
        None
    }
}

/// How many bytes `decode_string` moves the cursor at `p`: as for a byte
/// string; a payload that is present but not valid UTF-8 is consumed in
/// full before the failure surfaces.
pub open spec fn dec_string_used(s: Seq<u8>, p: int) -> int {
    if 0 <= p < s.len() && s[p] == spec_tag(Kind::String) {
        let q = p + 1 + dec_u32_used(s, p + 1);
        match dec_u32(s, p + 1) {
            Some(size) => if q + size as int <= s.len() {
                q + size as int - p
            } else {
                q - p
            },
            None => q - p,
        }
    } else {
        0
    }
}

/// The message `decode_error` yields at `p`: the `Error` tag, then a
/// complete string value whose text is the error's message.
pub open spec fn dec_error_msg(s: Seq<u8>, p: int) -> Option<Seq<char>> {
    if 0 <= p && p + 1 < s.len() && s[p] == spec_tag(Kind::Error) {
        dec_string(s, p + 1)
    } else {
        None
    }
}

/// How many bytes `decode_error` moves the cursor at `p`: both tag bytes
/// are restored on a tag mismatch; after two matching tags it moves as
/// the embedded string read does.
pub open spec fn dec_error_used(s: Seq<u8>, p: int) -> int {
    if 0 <= p < s.len() {
        if p + 1 < s.len() {
            if s[p] == spec_tag(Kind::Error) && s[p + 1] == spec_tag(Kind::String) {
                1 + dec_string_used(s, p + 1)
            } else {
                0
            }
        } else {
            1
        }
    } else {
        0
    }
}

/// The length `decode_array` yields at `p` when the caller expects
/// elements of kind `val_kind`: the `Array` tag, a header byte equal to
/// the expected kind's tag, then a nested `u32` length.
pub open spec fn dec_array(s: Seq<u8>, p: int, val_kind: Kind) -> Option<u32> {
    if 0 <= p && p + 1 < s.len() && s[p] == spec_tag(Kind::Array) && s[p + 1] == spec_tag(val_kind) {
        dec_u32(s, p + 2)
    } else {
        None
    }
}

/// How many bytes `decode_array` moves the cursor at `p`: a header
/// mismatch restores one of the two bytes read, leaving the cursor one
/// past where it began; matching headers are followed by the length read.
pub open spec fn dec_array_used(s: Seq<u8>, p: int, val_kind: Kind) -> int {
    if 0 <= p < s.len() {
        if p + 1 < s.len() {
            if s[p] == spec_tag(Kind::Array) && s[p + 1] == spec_tag(val_kind) {
                2 + dec_u32_used(s, p + 2)
            } else {
                1
            }
        } else {
            1
        }
    } else {
        0
    }
}

/// The length `decode_map` yields at `p` when the caller expects keys of
/// kind `key_kind` and values of kind `val_kind`.
pub open spec fn dec_map(s: Seq<u8>, p: int, key_kind: Kind, val_kind: Kind) -> Option<u32> {
    if 0 <= p && p + 2 < s.len() && s[p] == spec_tag(Kind::Mapping) && s[p + 1] == spec_tag(key_kind)
        && s[p + 2] == spec_tag(val_kind) {
        dec_u32(s, p + 3)
    } else {
        None
    }
}

/// How many bytes `decode_map` moves the cursor at `p`: symmetric to the
/// array header but with three header bytes, of which a mismatch restores
/// one.
pub open spec fn dec_map_used(s: Seq<u8>, p: int, key_kind: Kind, val_kind: Kind) -> int {
    if 0 <= p < s.len() {
        if p + 1 < s.len() {
            if p + 2 < s.len() {
                if s[p] == spec_tag(Kind::Mapping) && s[p + 1] == spec_tag(key_kind) && s[p + 2]
                    == spec_tag(val_kind) {
                    3 + dec_u32_used(s, p + 3)
                } else {
                    2
                }
            } else {
                2
            }
        } else {
            1
        }
    } else {
        0
    }
}

// ---------------------------------------------------------------------------
// Facts about varints.
// ---------------------------------------------------------------------------

/// Larger group counts admit at least as many values.
pub proof fn lemma_pow128_mono(i: nat, j: nat)
    requires
        i <= j,
    ensures
        pow128(i) <= pow128(j),
    decreases j,
{
    if i < j {
        lemma_pow128_mono(i, (j - 1) as nat);
        assert(pow128(j) == 128 * pow128((j - 1) as nat));
    }
}

/// A value below `pow128(k)` encodes in at most `k` groups.
pub proof fn lemma_varint_enc_len(v: nat, k: nat)
    requires
        1 <= k,
        v < pow128(k),
    ensures
        varint_enc(v).len() <= k,
    decreases k,
{
    if v < 128 {
    } else {
        assert(pow128(k) == 128 * pow128((k - 1) as nat));
        assert(v / 128 < pow128((k - 1) as nat)) by {
            vstd::arithmetic::div_mod::lemma_multiply_divide_lt(
                v as int,
                128,
                pow128((k - 1) as nat) as int,
            );
        }
        lemma_varint_enc_len(v / 128, (k - 1) as nat);
    }
}

/// A failed varint read never consumes more than `max` bytes, and never
/// reads past the end of the stream.
pub proof fn lemma_varint_used_bound(s: Seq<u8>, p: int, max: int)
    requires
        0 <= p <= s.len(),
        0 <= max,
    ensures
        0 <= varint_used(s, p, max) <= max,
        p + varint_used(s, p, max) <= s.len(),
    decreases max,
{
    if p < s.len() && max > 0 && s[p] >= 128 {
        lemma_varint_used_bound(s, p + 1, max - 1);
    }
}

/// Round trip at the varint level: wherever the encoding of `v` sits in a
/// stream, a varint read at its start yields exactly `v` and consumes
/// exactly the encoding, provided the group budget admits it.
pub proof fn lemma_parse_varint_enc(s: Seq<u8>, p: int, max: int, v: nat)
    requires
        0 <= p,
        varint_enc(v).len() <= max,
        p + varint_enc(v).len() <= s.len(),
        s.subrange(p, p + varint_enc(v).len()) == varint_enc(v),
    ensures
        parse_varint(s, p, max) == Some((v, varint_enc(v).len() as int)),
        varint_used(s, p, max) == varint_enc(v).len(),
    decreases v,
{
    let e = varint_enc(v);
    assert(s[p] == e[0]);
    if v < 128 {
        assert(s[p] == v as u8);
    } else {
        let rest = varint_enc(v / 128);
        assert(e == seq![(v % 128 + 128) as u8] + rest);
        assert(s[p] == (v % 128 + 128) as u8);
        assert(s[p] >= 128);
        assert(s.subrange(p + 1, p + 1 + rest.len()) == rest) by {
            assert forall|i: int| 0 <= i < rest.len() implies s.subrange(
                p + 1,
                p + 1 + rest.len(),
            )[i] == rest[i] by {
                assert(s.subrange(p + 1, p + 1 + rest.len())[i] == s[p + 1 + i]);
                assert(s[p + 1 + i] == s.subrange(p, p + e.len())[1 + i]);
            }
            assert(s.subrange(p + 1, p + 1 + rest.len()) =~= rest);
        }
        lemma_parse_varint_enc(s, p + 1, max - 1, v / 128);
        assert(parse_varint(s, p, max) == Some(
            (((s[p] - 128) + 128 * (v / 128)) as nat, rest.len() as int + 1),
        ));
        assert((s[p] - 128) + 128 * (v / 128) == v % 128 + 128 * (v / 128));
        assert(v % 128 + 128 * (v / 128) == v) by {
            vstd::arithmetic::div_mod::lemma_fundamental_div_mod(v as int, 128);
        }
    }
}

} // verus!
