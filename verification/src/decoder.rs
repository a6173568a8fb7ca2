//! The reader: one decode operation per wire type, plus the `None` probe.
//!
//! Every operation first validates the tag byte (or bytes) it expects; on
//! a mismatch the position is restored so the caller can probe again with
//! a different expectation, and the operation's own error is returned.
//! Payload bytes consumed past a confirmed tag are never restored: a
//! decode error after a matching tag is terminal for the buffer.

use vstd::prelude::*;
use crate::cursor::Cursor;
use crate::kind::Kind;
use crate::wire::{dec_none, dec_bool, dec_bool_used, dec_u8, dec_u8_used};
use crate::wire::{dec_u16, dec_u16_used, dec_u32, dec_u32_used, dec_u64, dec_u64_used};
use crate::wire::{dec_i32, dec_i32_used, dec_i64, dec_i64_used};
use crate::wire::{dec_f32_bits, dec_f32_used, dec_f64_bits, dec_f64_used};
use crate::wire::{VARINT_LEN16, VARINT_LEN32, VARINT_LEN64};
use crate::wire::{dec_bytes, dec_bytes_used, dec_string, dec_string_used};
use crate::wire::{dec_error_msg, dec_error_used, dec_array, dec_array_used, dec_map, dec_map_used};
use crate::wire::lemma_varint_used_bound;
use crate::kind::spec_tag;
use vstd::utf8::{valid_utf8, encode_utf8};

verus! {

/// The failure of one decode operation: either the tag byte did not match
/// the expectation, or the payload was malformed, truncated, or (for a
/// varint) ran past its maximum group count.
#[derive(Clone, Copy, Debug, PartialEq, Eq, Structural)]
pub enum DecodingError {
    InvalidNone,
    InvalidArray,
    InvalidMap,
    InvalidBytes,
    InvalidString,
    InvalidError,
    InvalidBool,
    InvalidU8,
    InvalidU16,
    InvalidU32,
    InvalidU64,
    InvalidI32,
    InvalidI64,
    InvalidF32,
    InvalidF64,
    InvalidEnum,
    InvalidStruct,
}

impl Cursor {
    /// Probes for the absent value: consumes the `None` tag and returns
    /// true if it is next, otherwise restores the position and returns
    /// false. This is the only non-failing read, and the mechanism for
    /// checking absence before attempting a typed decode.
    pub fn decode_none(&mut self) -> (r: bool)
        ensures
            final(self)@ == old(self)@,
            r == dec_none(old(self)@, old(self).spec_pos()),
            final(self).spec_pos() == old(self).spec_pos() + (if r {
                1int
            } else {
                0int
            }),
    {
        let p = self.position();
        if p < self.buf_len() {
            if self.byte_at(p) == Kind::Nil.tag() {
                self.seek(p + 1);
                return true;
            }
        }
        false
    }

    /// Reads a boolean: the `Bool` tag, then one payload byte, true
    /// exactly for the byte 1.
    pub fn decode_bool(&mut self) -> (r: Result<bool, DecodingError>)
        ensures
            final(self)@ == old(self)@,
            final(self).spec_pos() == old(self).spec_pos() + dec_bool_used(
                old(self)@,
                old(self).spec_pos(),
            ),
            (match dec_bool(old(self)@, old(self).spec_pos()) {
                Some(v) => r == Ok::<bool, DecodingError>(v),
                None => r == Err::<bool, DecodingError>(DecodingError::InvalidBool),
            }),
    {
        let p = self.position();
        if p >= self.buf_len() {
            return Err(DecodingError::InvalidBool);
        }
        if self.byte_at(p) != Kind::Bool.tag() {
            return Err(DecodingError::InvalidBool);
        }
        if p + 1 >= self.buf_len() {
            self.seek(p + 1);
            return Err(DecodingError::InvalidBool);
        }
        let v = self.byte_at(p + 1);
        self.seek(p + 2);
        Ok(v == 1)
    }

    /// Reads a `u8`: its tag, then the raw payload byte.
    pub fn decode_u8(&mut self) -> (r: Result<u8, DecodingError>)
        ensures
            final(self)@ == old(self)@,
            final(self).spec_pos() == old(self).spec_pos() + dec_u8_used(
                old(self)@,
                old(self).spec_pos(),
            ),
            (match dec_u8(old(self)@, old(self).spec_pos()) {
                Some(v) => r == Ok::<u8, DecodingError>(v),
                None => r == Err::<u8, DecodingError>(DecodingError::InvalidU8),
            }),
    {
        let p = self.position();
        if p >= self.buf_len() {
            return Err(DecodingError::InvalidU8);
        }
        if self.byte_at(p) != Kind::U8.tag() {
            return Err(DecodingError::InvalidU8);
        }
        if p + 1 >= self.buf_len() {
            self.seek(p + 1);
            return Err(DecodingError::InvalidU8);
        }
        let v = self.byte_at(p + 1);
        self.seek(p + 2);
        Ok(v)
    }

    /// Reads a `u16`: its tag, then a varint of at most three groups,
    /// reduced to 16 bits.
    pub fn decode_u16(&mut self) -> (r: Result<u16, DecodingError>)
        ensures
            final(self)@ == old(self)@,
            final(self).spec_pos() == old(self).spec_pos() + dec_u16_used(
                old(self)@,
                old(self).spec_pos(),
            ),
            (match dec_u16(old(self)@, old(self).spec_pos()) {
                Some(v) => r == Ok::<u16, DecodingError>(v),
                None => r == Err::<u16, DecodingError>(DecodingError::InvalidU16),
            }),
    {
        let p = self.position();
        if p >= self.buf_len() {
            return Err(DecodingError::InvalidU16);
        }
        if self.byte_at(p) != Kind::U16.tag() {
            return Err(DecodingError::InvalidU16);
        }
        self.seek(p + 1);
        match self.read_varint(VARINT_LEN16) {
            Some(v) => Ok((v % 0x10000) as u16),
            None => Err(DecodingError::InvalidU16),
        }
    }

    /// Reads a `u32`: its tag, then a varint of at most five groups,
    /// reduced to 32 bits.
    pub fn decode_u32(&mut self) -> (r: Result<u32, DecodingError>)
        ensures
            final(self)@ == old(self)@,
            final(self).spec_pos() == old(self).spec_pos() + dec_u32_used(
                old(self)@,
                old(self).spec_pos(),
            ),
            (match dec_u32(old(self)@, old(self).spec_pos()) {
                Some(v) => r == Ok::<u32, DecodingError>(v),
                None => r == Err::<u32, DecodingError>(DecodingError::InvalidU32),
            }),
    {
        let p = self.position();
        if p >= self.buf_len() {
            return Err(DecodingError::InvalidU32);
        }
        if self.byte_at(p) != Kind::U32.tag() {
            return Err(DecodingError::InvalidU32);
        }
        self.seek(p + 1);
        match self.read_varint(VARINT_LEN32) {
            Some(v) => Ok((v % 0x100000000) as u32),
            None => Err(DecodingError::InvalidU32),
        }
    }

    /// Reads a `u64`: its tag, then a varint of at most ten groups,
    /// reduced to 64 bits.
    pub fn decode_u64(&mut self) -> (r: Result<u64, DecodingError>)
        ensures
            final(self)@ == old(self)@,
            final(self).spec_pos() == old(self).spec_pos() + dec_u64_used(
                old(self)@,
                old(self).spec_pos(),
            ),
            (match dec_u64(old(self)@, old(self).spec_pos()) {
                Some(v) => r == Ok::<u64, DecodingError>(v),
                None => r == Err::<u64, DecodingError>(DecodingError::InvalidU64),
            }),
    {
        let p = self.position();
        if p >= self.buf_len() {
            return Err(DecodingError::InvalidU64);
        }
        if self.byte_at(p) != Kind::U64.tag() {
            return Err(DecodingError::InvalidU64);
        }
        self.seek(p + 1);
        match self.read_varint(VARINT_LEN64) {
            Some(v) => Ok((v % 0x10000000000000000) as u64),
            None => Err(DecodingError::InvalidU64),
        }
    }

    /// Reads an `i32`: its tag, a varint reduced to 32 bits, then the
    /// inverse zigzag transform.
    pub fn decode_i32(&mut self) -> (r: Result<i32, DecodingError>)
        ensures
            final(self)@ == old(self)@,
            final(self).spec_pos() == old(self).spec_pos() + dec_i32_used(
                old(self)@,
                old(self).spec_pos(),
            ),
            (match dec_i32(old(self)@, old(self).spec_pos()) {
                Some(v) => r == Ok::<i32, DecodingError>(v),
                None => r == Err::<i32, DecodingError>(DecodingError::InvalidI32),
            }),
    {
        let p = self.position();
        if p >= self.buf_len() {
            return Err(DecodingError::InvalidI32);
        }
        if self.byte_at(p) != Kind::I32.tag() {
            return Err(DecodingError::InvalidI32);
        }
        self.seek(p + 1);
        match self.read_varint(VARINT_LEN32) {
            Some(v) => {
                let u: u32 = (v % 0x100000000) as u32;
                if u % 2 == 0 {
                    Ok((u / 2) as i32)
                } else {
                    let t: i64 = (u / 2) as i64;
                    Ok((-t - 1) as i32)
                }
            },
            None => Err(DecodingError::InvalidI32),
        }
    }

    /// Reads an `i64`: its tag, a varint reduced to 64 bits, then the
    /// inverse zigzag transform.
    pub fn decode_i64(&mut self) -> (r: Result<i64, DecodingError>)
        ensures
            final(self)@ == old(self)@,
            final(self).spec_pos() == old(self).spec_pos() + dec_i64_used(
                old(self)@,
                old(self).spec_pos(),
            ),
            (match dec_i64(old(self)@, old(self).spec_pos()) {
                Some(v) => r == Ok::<i64, DecodingError>(v),
                None => r == Err::<i64, DecodingError>(DecodingError::InvalidI64),
            }),
    {
        let p = self.position();
        if p >= self.buf_len() {
            return Err(DecodingError::InvalidI64);
        }
        if self.byte_at(p) != Kind::I64.tag() {
            return Err(DecodingError::InvalidI64);
        }
        self.seek(p + 1);
        match self.read_varint(VARINT_LEN64) {
            Some(v) => {
                let u: u64 = (v % 0x10000000000000000) as u64;
                if u % 2 == 0 {
                    Ok((u / 2) as i64)
                } else {
                    let t: u64 = u / 2;
                    proof {
                        assert(t < 0x8000000000000000);
                    }
                    Ok((-(t as i64)) - 1)
                }
            },
            None => Err(DecodingError::InvalidI64),
        }
    }

    /// Reads the bit pattern of an `f32`: its tag, then four big-endian
    /// payload bytes.
    pub fn decode_f32_bits(&mut self) -> (r: Result<u32, DecodingError>)
        ensures
            final(self)@ == old(self)@,
            final(self).spec_pos() == old(self).spec_pos() + dec_f32_used(
                old(self)@,
                old(self).spec_pos(),
            ),
            (match dec_f32_bits(old(self)@, old(self).spec_pos()) {
                Some(v) => r == Ok::<u32, DecodingError>(v),
                None => r == Err::<u32, DecodingError>(DecodingError::InvalidF32),
            }),
    {
        let p = self.position();
        let n = self.buf_len();
        if p >= n {
            return Err(DecodingError::InvalidF32);
        }
        if self.byte_at(p) != Kind::F32.tag() {
            return Err(DecodingError::InvalidF32);
        }
        if n - p < 5 {
            self.seek(n);
            return Err(DecodingError::InvalidF32);
        }
        let b1 = self.byte_at(p + 1);
        let b2 = self.byte_at(p + 2);
        let b3 = self.byte_at(p + 3);
        let b4 = self.byte_at(p + 4);
        let v: u32 = (b1 as u32) * 0x1000000 + (b2 as u32) * 0x10000 + (b3 as u32) * 0x100 + (
        b4 as u32);
        self.seek(p + 5);
        Ok(v)
    }

    /// Reads the bit pattern of an `f64`: its tag, then eight big-endian
    /// payload bytes.
    pub fn decode_f64_bits(&mut self) -> (r: Result<u64, DecodingError>)
        ensures
            final(self)@ == old(self)@,
            final(self).spec_pos() == old(self).spec_pos() + dec_f64_used(
                old(self)@,
                old(self).spec_pos(),
            ),
            (match dec_f64_bits(old(self)@, old(self).spec_pos()) {
                Some(v) => r == Ok::<u64, DecodingError>(v),
                None => r == Err::<u64, DecodingError>(DecodingError::InvalidF64),
            }),
    {
        let p = self.position();
        let n = self.buf_len();
        if p >= n {
            return Err(DecodingError::InvalidF64);
        }
        if self.byte_at(p) != Kind::F64.tag() {
            return Err(DecodingError::InvalidF64);
        }
        if n - p < 9 {
            self.seek(n);
            return Err(DecodingError::InvalidF64);
        }
        let b1 = self.byte_at(p + 1);
        let b2 = self.byte_at(p + 2);
        let b3 = self.byte_at(p + 3);
        let b4 = self.byte_at(p + 4);
        let b5 = self.byte_at(p + 5);
        let b6 = self.byte_at(p + 6);
        let b7 = self.byte_at(p + 7);
        let b8 = self.byte_at(p + 8);
        let v: u64 = (b1 as u64) * 0x100000000000000 + (b2 as u64) * 0x1000000000000 + (
        b3 as u64) * 0x10000000000 + (b4 as u64) * 0x100000000 + (b5 as u64) * 0x1000000 + (
        b6 as u64) * 0x10000 + (b7 as u64) * 0x100 + (b8 as u64);
        self.seek(p + 9);
        Ok(v)
    }

    /// Reads a byte string: its tag, a nested `u32` length, then exactly
    /// that many raw bytes.
    pub fn decode_bytes(&mut self) -> (r: Result<Vec<u8>, DecodingError>)
        ensures
            final(self)@ == old(self)@,
            final(self).spec_pos() == old(self).spec_pos() + dec_bytes_used(
                old(self)@,
                old(self).spec_pos(),
            ),
            (match dec_bytes(old(self)@, old(self).spec_pos()) {
                Some(b) => r matches Ok(v) && v@ == b,
                None => r == Err::<Vec<u8>, DecodingError>(DecodingError::InvalidBytes),
            }),
    {
        let ghost s = self@;
        let p = self.position();
        if p >= self.buf_len() {
            return Err(DecodingError::InvalidBytes);
        }
        if self.byte_at(p) != Kind::Bytes.tag() {
            return Err(DecodingError::InvalidBytes);
        }
        self.seek(p + 1);
        let size = match self.decode_u32() {
            Ok(sz) => sz,
            Err(_) => {
                return Err(DecodingError::InvalidBytes);
            },
        };
        proof {
            if p + 1 < s.len() && s[p as int + 1] == spec_tag(Kind::U32) {
                lemma_varint_used_bound(s, p as int + 2, VARINT_LEN32 as int);
            }
        }
        let q = self.position();
        let n = self.buf_len();
        let count = size as usize;
        if count > n - q {
            return Err(DecodingError::InvalidBytes);
        }
        let v = self.take_bytes(count);
        Ok(v)
    }

    /// Reads a text string: a byte-string payload after the `String`
    /// tag, which must moreover be valid UTF-8. Invalid text is rejected
    /// with its own error, distinct from a truncation.
    pub fn decode_string(&mut self) -> (r: Result<String, DecodingError>)
        ensures
            final(self)@ == old(self)@,
            final(self).spec_pos() == old(self).spec_pos() + dec_string_used(
                old(self)@,
                old(self).spec_pos(),
            ),
            (match dec_string(old(self)@, old(self).spec_pos()) {
                Some(t) => r matches Ok(v) && v@ == t,
                None => r == Err::<String, DecodingError>(DecodingError::InvalidString),
            }),
    {
        let ghost s = self@;
        let p = self.position();
        if p >= self.buf_len() {
            return Err(DecodingError::InvalidString);
        }
        if self.byte_at(p) != Kind::String.tag() {
            return Err(DecodingError::InvalidString);
        }
        self.seek(p + 1);
        let size = match self.decode_u32() {
            Ok(sz) => sz,
            Err(_) => {
                return Err(DecodingError::InvalidString);
            },
        };
        proof {
            if p + 1 < s.len() && s[p as int + 1] == spec_tag(Kind::U32) {
                lemma_varint_used_bound(s, p as int + 2, VARINT_LEN32 as int);
            }
        }
        let q = self.position();
        let n = self.buf_len();
        let count = size as usize;
        if count > n - q {
            return Err(DecodingError::InvalidString);
        }
        let v = self.take_bytes(count);
        match bytes_to_str(v.as_slice()) {
            Some(st) => {
                proof {
                    vstd::utf8::encode_utf8_decode_utf8(st@);
                }
                Ok(st.to_owned())
            },
            None => Err(DecodingError::InvalidString),
        }
    }

    /// Reads an error value: the `Error` tag followed immediately by a
    /// complete string value, whose text is the message. On a mismatch of
    /// either tag the position is restored by both bytes.
    pub fn decode_error(&mut self) -> (r: Result<String, DecodingError>)
        ensures
            final(self)@ == old(self)@,
            final(self).spec_pos() == old(self).spec_pos() + dec_error_used(
                old(self)@,
                old(self).spec_pos(),
            ),
            (match dec_error_msg(old(self)@, old(self).spec_pos()) {
                Some(t) => r matches Ok(v) && v@ == t,
                None => r == Err::<String, DecodingError>(DecodingError::InvalidError),
            }),
    {
        let ghost s = self@;
        let p = self.position();
        if p >= self.buf_len() {
            return Err(DecodingError::InvalidError);
        }
        if p + 1 >= self.buf_len() {
            self.seek(p + 1);
            return Err(DecodingError::InvalidError);
        }
        if self.byte_at(p) != Kind::Error.tag() || self.byte_at(p + 1) != Kind::String.tag() {
            return Err(DecodingError::InvalidError);
        }
        self.seek(p + 2);
        let size = match self.decode_u32() {
            Ok(sz) => sz,
            Err(_) => {
                return Err(DecodingError::InvalidError);
            },
        };
        proof {
            if p + 2 < s.len() && s[p as int + 2] == spec_tag(Kind::U32) {
                lemma_varint_used_bound(s, p as int + 3, VARINT_LEN32 as int);
            }
        }
        let q = self.position();
        let n = self.buf_len();
        let count = size as usize;
        if count > n - q {
            return Err(DecodingError::InvalidError);
        }
        let v = self.take_bytes(count);
        match bytes_to_str(v.as_slice()) {
            Some(st) => {
                proof {
                    vstd::utf8::encode_utf8_decode_utf8(st@);
                }
                Ok(st.to_owned())
            },
            None => Err(DecodingError::InvalidError),
        }
    }

    /// Reads an array header, expecting elements of `val_kind`: the
    /// `Array` tag, a header byte equal to the expected kind's tag, then
    /// a nested `u32` length. The caller loops and decodes that many
    /// elements itself; a header mismatch fails the whole call with the
    /// position restored by one byte.
    pub fn decode_array(&mut self, val_kind: Kind) -> (r: Result<usize, DecodingError>)
        ensures
            final(self)@ == old(self)@,
            final(self).spec_pos() == old(self).spec_pos() + dec_array_used(
                old(self)@,
                old(self).spec_pos(),
                val_kind,
            ),
            (match dec_array(old(self)@, old(self).spec_pos(), val_kind) {
                Some(len) => r == Ok::<usize, DecodingError>(len as usize),
                None => r == Err::<usize, DecodingError>(DecodingError::InvalidArray),
            }),
    {
        let p = self.position();
        if p >= self.buf_len() {
            return Err(DecodingError::InvalidArray);
        }
        if p + 1 >= self.buf_len() {
            self.seek(p + 1);
            return Err(DecodingError::InvalidArray);
        }
        if self.byte_at(p) != Kind::Array.tag() || self.byte_at(p + 1) != val_kind.tag() {
            self.seek(p + 1);
            return Err(DecodingError::InvalidArray);
        }
        self.seek(p + 2);
        match self.decode_u32() {
            Ok(sz) => Ok(sz as usize),
            Err(_) => Err(DecodingError::InvalidArray),
        }
    }

    /// Reads a map header, expecting keys of `key_kind` and values of
    /// `val_kind`: the `Mapping` tag, two header bytes equal to the
    /// expected kinds' tags, then a nested `u32` entry count. A header
    /// mismatch fails the whole call with the position restored by one
    /// byte.
    pub fn decode_map(&mut self, key_kind: Kind, val_kind: Kind) -> (r: Result<
        usize,
        DecodingError,
    >)
        ensures
            final(self)@ == old(self)@,
            final(self).spec_pos() == old(self).spec_pos() + dec_map_used(
                old(self)@,
                old(self).spec_pos(),
                key_kind,
                val_kind,
            ),
            (match dec_map(old(self)@, old(self).spec_pos(), key_kind, val_kind) {
                Some(len) => r == Ok::<usize, DecodingError>(len as usize),
                None => r == Err::<usize, DecodingError>(DecodingError::InvalidMap),
            }),
    {
        let p = self.position();
        if p >= self.buf_len() {
            return Err(DecodingError::InvalidMap);
        }
        if p + 1 >= self.buf_len() {
            self.seek(p + 1);
            return Err(DecodingError::InvalidMap);
        }
        if p + 2 >= self.buf_len() {
            self.seek(p + 2);
            return Err(DecodingError::InvalidMap);
        }
        if self.byte_at(p) != Kind::Mapping.tag() || self.byte_at(p + 1) != key_kind.tag()
            || self.byte_at(p + 2) != val_kind.tag() {
            self.seek(p + 2);
            return Err(DecodingError::InvalidMap);
        }
        self.seek(p + 3);
        match self.decode_u32() {
            Ok(sz) => Ok(sz as usize),
            Err(_) => Err(DecodingError::InvalidMap),
        }
    }
}

/// Relies on std's `str::from_utf8`: it returns `Ok` exactly when the
/// bytes are valid UTF-8, and the returned string slice views those same
/// bytes, so its characters encode back to them.
#[verifier::external_body]
fn bytes_to_str(v: &[u8]) -> (r: Option<&str>)
    ensures
        r is Some <==> valid_utf8(v@),
        (r matches Some(s) ==> encode_utf8(s@) == v@),
{
    std::str::from_utf8(v).ok()
}

} // verus!
