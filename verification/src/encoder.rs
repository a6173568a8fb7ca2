//! The writer: one encode operation per wire type.
//!
//! Each operation unconditionally appends its tag byte and encoded
//! payload and hands the cursor back for chaining; encoding is total over
//! the supported value space and has no failure path. Composite writers
//! emit only the header; the caller then emits exactly the declared
//! number of elements through the typed operations.

use vstd::prelude::*;
use crate::cursor::Cursor;
use crate::kind::Kind;
use crate::wire::{enc_none, enc_bool, enc_u8, enc_u16, enc_u32, enc_u64};
use crate::wire::{enc_i32, enc_i64, enc_f32_bits, enc_f64_bits, zigzag32, zigzag64};
use crate::wire::{enc_bytes, enc_string, enc_error, enc_array_header, enc_map_header};
use vstd::utf8::encode_utf8;

verus! {

impl Cursor {
    /// Appends the absent value: the `None` tag alone.
    pub fn encode_none(self) -> (r: Cursor)
        ensures
            r@ == self@ + enc_none(),
            r.spec_pos() == r@.len() as int,
    {
        let mut c = self;
        c.push_byte(Kind::Nil.tag());
        proof {
            assert(c@ =~= self@ + enc_none());
        }
        c
    }

    /// Appends a boolean: its tag and one payload byte.
    pub fn encode_bool(self, v: bool) -> (r: Cursor)
        ensures
            r@ == self@ + enc_bool(v),
            r.spec_pos() == r@.len() as int,
    {
        let mut c = self;
        c.push_byte(Kind::Bool.tag());
        c.push_byte(if v {
            1
        } else {
            0
        });
        proof {
            assert(c@ =~= self@ + enc_bool(v));
        }
        c
    }

    /// Appends a `u8`: its tag and the raw byte, with no varint framing.
    pub fn encode_u8(self, v: u8) -> (r: Cursor)
        ensures
            r@ == self@ + enc_u8(v),
            r.spec_pos() == r@.len() as int,
    {
        let mut c = self;
        c.push_byte(Kind::U8.tag());
        c.push_byte(v);
        proof {
            assert(c@ =~= self@ + enc_u8(v));
        }
        c
    }

    /// Appends a `u16`: its tag, then the value as a varint.
    pub fn encode_u16(self, v: u16) -> (r: Cursor)
        ensures
            r@ == self@ + enc_u16(v),
            r.spec_pos() == r@.len() as int,
    {
        let mut c = self;
        c.push_byte(Kind::U16.tag());
        c.write_varint(v as u64);
        proof {
            assert(c@ =~= self@ + enc_u16(v));
        }
        c
    }

    /// Appends a `u32`: its tag, then the value as a varint.
    pub fn encode_u32(self, v: u32) -> (r: Cursor)
        ensures
            r@ == self@ + enc_u32(v),
            r.spec_pos() == r@.len() as int,
    {
        let mut c = self;
        c.push_byte(Kind::U32.tag());
        c.write_varint(v as u64);
        proof {
            assert(c@ =~= self@ + enc_u32(v));
        }
        c
    }

    /// Appends a `u64`: its tag, then the value as a varint.
    pub fn encode_u64(self, v: u64) -> (r: Cursor)
        ensures
            r@ == self@ + enc_u64(v),
            r.spec_pos() == r@.len() as int,
    {
        let mut c = self;
        c.push_byte(Kind::U64.tag());
        c.write_varint(v);
        proof {
            assert(c@ =~= self@ + enc_u64(v));
        }
        c
    }

    /// Appends an `i32`: its tag, then the zigzag image as a varint.
    pub fn encode_i32(self, v: i32) -> (r: Cursor)
        ensures
            r@ == self@ + enc_i32(v),
            r.spec_pos() == r@.len() as int,
    {
        let u: u32 = if v >= 0 {
            (v as u32) * 2
        } else {
            let m: i64 = -(v as i64);
            (m * 2 - 1) as u32
        };
        proof {
            assert(u == zigzag32(v));
        }
        let mut c = self;
        c.push_byte(Kind::I32.tag());
        c.write_varint(u as u64);
        proof {
            assert(c@ =~= self@ + enc_i32(v));
        }
        c
    }

    /// Appends an `i64`: its tag, then the zigzag image as a varint.
    pub fn encode_i64(self, v: i64) -> (r: Cursor)
        ensures
            r@ == self@ + enc_i64(v),
            r.spec_pos() == r@.len() as int,
    {
        let u: u64 = if v >= 0 {
            (v as u64) * 2
        } else {
            let m: i128 = -(v as i128);
            (m * 2 - 1) as u64
        };
        proof {
            assert(u == zigzag64(v));
        }
        let mut c = self;
        c.push_byte(Kind::I64.tag());
        c.write_varint(u);
        proof {
            assert(c@ =~= self@ + enc_i64(v));
        }
        c
    }

    /// Appends an `f32` given as its IEEE-754 bit pattern: its tag, then
    /// the four payload bytes in big-endian order.
    pub fn encode_f32_bits(self, bits: u32) -> (r: Cursor)
        ensures
            r@ == self@ + enc_f32_bits(bits),
            r.spec_pos() == r@.len() as int,
    {
        let mut c = self;
        c.push_byte(Kind::F32.tag());
        c.push_byte((bits / 0x1000000) as u8);
        c.push_byte(((bits / 0x10000) % 0x100) as u8);
        c.push_byte(((bits / 0x100) % 0x100) as u8);
        c.push_byte((bits % 0x100) as u8);
        proof {
            assert(c@ =~= self@ + enc_f32_bits(bits));
        }
        c
    }

    /// Appends an `f64` given as its IEEE-754 bit pattern: its tag, then
    /// the eight payload bytes in big-endian order.
    pub fn encode_f64_bits(self, bits: u64) -> (r: Cursor)
        ensures
            r@ == self@ + enc_f64_bits(bits),
            r.spec_pos() == r@.len() as int,
    {
        let mut c = self;
        c.push_byte(Kind::F64.tag());
        c.push_byte((bits / 0x100000000000000) as u8);
        c.push_byte(((bits / 0x1000000000000) % 0x100) as u8);
        c.push_byte(((bits / 0x10000000000) % 0x100) as u8);
        c.push_byte(((bits / 0x100000000) % 0x100) as u8);
        c.push_byte(((bits / 0x1000000) % 0x100) as u8);
        c.push_byte(((bits / 0x10000) % 0x100) as u8);
        c.push_byte(((bits / 0x100) % 0x100) as u8);
        c.push_byte((bits % 0x100) as u8);
        proof {
            assert(c@ =~= self@ + enc_f64_bits(bits));
        }
        c
    }

    /// Appends a byte string: its tag, the length as a full nested `u32`
    /// value, then the raw bytes. The wire format carries lengths as
    /// 32-bit values, so longer slices are not encodable.
    pub fn encode_bytes(self, val: &[u8]) -> (r: Cursor)
        requires
            val@.len() <= u32::MAX,
        ensures
            r@ == self@ + enc_bytes(val@),
            r.spec_pos() == r@.len() as int,
    {
        let n: u32 = val.len() as u32;
        let mut c = self;
        c.push_byte(Kind::Bytes.tag());
        c = c.encode_u32(n);
        c.append_slice(val);
        proof {
            assert(c@ =~= self@ + enc_bytes(val@));
        }
        c
    }

    /// Appends a text string: its tag, the UTF-8 byte length as a nested
    /// `u32`, then the UTF-8 bytes.
    pub fn encode_string(self, val: &str) -> (r: Cursor)
        requires
            encode_utf8(val@).len() <= u32::MAX,
        ensures
            r@ == self@ + enc_string(val@),
            r.spec_pos() == r@.len() as int,
    {
        let b: &[u8] = val.as_bytes();
        let n: u32 = b.len() as u32;
        let mut c = self;
        c.push_byte(Kind::String.tag());
        c = c.encode_u32(n);
        c.append_slice(b);
        proof {
            assert(c@ =~= self@ + enc_string(val@));
        }
        c
    }

    /// Appends an error value: its tag, followed by the encoding of its
    /// message as a string.
    pub fn encode_error(self, val: &str) -> (r: Cursor)
        requires
            encode_utf8(val@).len() <= u32::MAX,
        ensures
            r@ == self@ + enc_error(val@),
            r.spec_pos() == r@.len() as int,
    {
        let mut c = self;
        c.push_byte(Kind::Error.tag());
        c = c.encode_string(val);
        proof {
            assert(c@ =~= self@ + enc_error(val@));
        }
        c
    }

    /// Appends an array header: the `Array` tag, the declared element
    /// kind's tag, and the length as a nested `u32`. The caller then
    /// emits exactly `size` elements through the typed operations.
    pub fn encode_array(self, size: usize, val_kind: Kind) -> (r: Cursor)
        requires
            size <= u32::MAX,
        ensures
            r@ == self@ + enc_array_header(size as u32, val_kind),
            r.spec_pos() == r@.len() as int,
    {
        let mut c = self;
        c.push_byte(Kind::Array.tag());
        c.push_byte(val_kind.tag());
        c = c.encode_u32(size as u32);
        proof {
            assert(c@ =~= self@ + enc_array_header(size as u32, val_kind));
        }
        c
    }

    /// Appends a map header: the `Mapping` tag, the declared key and
    /// value kinds' tags, and the entry count as a nested `u32`. The
    /// caller then emits exactly `size` key/value pairs.
    pub fn encode_map(self, size: usize, key_kind: Kind, val_kind: Kind) -> (r: Cursor)
        requires
            size <= u32::MAX,
        ensures
            r@ == self@ + enc_map_header(size as u32, key_kind, val_kind),
            r.spec_pos() == r@.len() as int,
    {
        let mut c = self;
        c.push_byte(Kind::Mapping.tag());
        c.push_byte(key_kind.tag());
        c.push_byte(val_kind.tag());
        c = c.encode_u32(size as u32);
        proof {
            assert(c@ =~= self@ + enc_map_header(size as u32, key_kind, val_kind));
        }
        c
    }
}

} // verus!
