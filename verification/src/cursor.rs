//! The byte cursor: a position-tracked view over a byte sequence.
//!
//! One cursor type serves both sides of the codec. The writer appends at
//! the end of the buffer and leaves the position at the new end; the
//! reader advances the position only past bytes validated as belonging to
//! the expected shape, and restores it on a tag mismatch.

use vstd::prelude::*;
use crate::wire::{varint_enc, parse_varint, varint_used, pow128};
use crate::wire::lemma_pow128_mono;

verus! {

/// A byte buffer together with a read/write position.
pub struct Cursor {
    buf: Vec<u8>,
    pos: usize,
}

impl View for Cursor {
    type V = Seq<u8>;

    /// The bytes the cursor ranges over.
    closed spec fn view(&self) -> Seq<u8> {
        self.buf@
    }
}

impl Cursor {
    /// The cursor's position within its buffer.
    pub closed spec fn spec_pos(&self) -> int {
        self.pos as int
    }

    /// A cursor over the given bytes, positioned at their start.
    pub fn new(buf: Vec<u8>) -> (c: Cursor)
        ensures
            c@ == buf@,
            c.spec_pos() == 0,
    {
        Cursor { buf, pos: 0 }
    }

    /// A cursor over an empty buffer with room reserved for `capacity`
    /// bytes, positioned at the start.
    pub fn with_capacity(capacity: usize) -> (c: Cursor)
        ensures
            c@ == Seq::<u8>::empty(),
            c.spec_pos() == 0,
    {
        Cursor { buf: Vec::with_capacity(capacity), pos: 0 }
    }

    /// The current position.
    pub fn position(&self) -> (p: usize)
        ensures
            p == self.spec_pos(),
    {
        self.pos
    }

    /// A borrow of the underlying bytes.
    pub fn get_ref(&self) -> (buf: &Vec<u8>)
        ensures
            buf@ == self@,
    {
        &self.buf
    }

    /// The underlying bytes, surrendering the cursor.
    pub fn into_vec(self) -> (buf: Vec<u8>)
        ensures
            buf@ == self@,
    {
        self.buf
    }

    /// The length of the underlying buffer.
    pub(crate) fn buf_len(&self) -> (n: usize)
        ensures
            n == self@.len(),
    {
        self.buf.len()
    }

    /// The byte at an absolute buffer index.
    pub(crate) fn byte_at(&self, i: usize) -> (b: u8)
        requires
            i < self@.len(),
        ensures
            b == self@[i as int],
    {
        self.buf[i]
    }

    /// Moves the position to an absolute index within the buffer.
    pub(crate) fn seek(&mut self, p: usize)
        requires
            p <= old(self)@.len(),
        ensures
            final(self)@ == old(self)@,
            final(self).spec_pos() == p,
    {
        self.pos = p;
    }

    /// Appends one byte and parks the position at the new end.
    pub(crate) fn push_byte(&mut self, b: u8)
        ensures
            final(self)@ == old(self)@.push(b),
            final(self).spec_pos() == final(self)@.len() as int,
    {
        self.buf.push(b);
        self.pos = self.buf.len();
    }

    /// Appends a run of raw bytes and parks the position at the new end.
    pub(crate) fn append_slice(&mut self, bytes: &[u8])
        ensures
            final(self)@ == old(self)@ + bytes@,
            final(self).spec_pos() == final(self)@.len() as int,
    {
        let ghost s0 = self@;
        let mut i: usize = 0;
        while i < bytes.len()
            invariant
                i <= bytes@.len(),
                self@ == s0 + bytes@.subrange(0, i as int),
            decreases bytes@.len() - i,
        {
            let b: u8 = *vstd::slice::slice_index_get(bytes, i);
            self.push_byte(b);
            i = i + 1;
            proof {
                assert(self@ =~= s0 + bytes@.subrange(0, i as int));
            }
        }
        self.pos = self.buf.len();
        proof {
            assert(self@ =~= s0 + bytes@);
        }
    }

    /// Copies `count` bytes out of the buffer from the current position
    /// and advances past them.
    pub(crate) fn take_bytes(&mut self, count: usize) -> (r: Vec<u8>)
        requires
            old(self).spec_pos() + count <= old(self)@.len(),
        ensures
            final(self)@ == old(self)@,
            final(self).spec_pos() == old(self).spec_pos() + count,
            r@ == old(self)@.subrange(old(self).spec_pos(), old(self).spec_pos() + count),
    {
        let n = self.buf.len();
        let piece = vstd::slice::slice_subrange(self.buf.as_slice(), self.pos, self.pos + count);
        let out = vstd::slice::slice_to_vec(piece);
        self.pos = self.pos + count;
        out
    }

    /// Appends the varint encoding of `v`: 7 bits per group, low group
    /// first, the high bit marking every group but the last.
    pub(crate) fn write_varint(&mut self, v: u64)
        ensures
            final(self)@ == old(self)@ + varint_enc(v as nat),
            final(self).spec_pos() == final(self)@.len() as int,
    {
        let ghost s0 = self@;
        let ghost v0 = v;
        let mut v: u64 = v;
        while v >= 128
            invariant
                self@ + varint_enc(v as nat) == s0 + varint_enc(v0 as nat),
            decreases v,
        {
            let ghost before = v;
            let b: u8 = (v % 128 + 128) as u8;
            self.push_byte(b);
            v = v / 128;
            proof {
                assert(varint_enc(before as nat) == seq![b] + varint_enc(v as nat));
                assert(self@ + varint_enc(v as nat) =~= s0 + varint_enc(v0 as nat));
            }
        }
        self.push_byte(v as u8);
        proof {
            assert(varint_enc(v as nat) == seq![v as u8]);
            assert(self@ =~= s0 + varint_enc(v0 as nat));
        }
    }

    /// Reads a varint of at most `max` groups at the current position.
    /// On success the position has moved past the terminating group and
    /// the exact group sum is returned; on truncation or an overlong run
    /// the position rests after the bytes consumed and `None` comes back.
    #[verifier::loop_isolation(false)]
    pub(crate) fn read_varint(&mut self, max: usize) -> (r: Option<u128>)
        requires
            max <= 10,
        ensures
            final(self)@ == old(self)@,
            final(self).spec_pos() == old(self).spec_pos() + varint_used(
                old(self)@,
                old(self).spec_pos(),
                max as int,
            ),
            (match parse_varint(old(self)@, old(self).spec_pos(), max as int) {
                Some(vn) => r matches Some(u) && u as nat == vn.0,
                None => r is None,
            }),
    {
        let ghost s = self@;
        let ghost p0 = self.spec_pos();
        let mut x: u128 = 0;
        let mut mult: u128 = 1;
        let mut i: usize = 0;
        while i < max
            invariant
                max <= 10,
                i <= max,
                self@ == s,
                self.spec_pos() == p0 + i,
                0 <= p0,
                mult == pow128(i as nat),
                x < mult,
                varint_used(s, p0, max as int) == i + varint_used(s, p0 + i, (max - i) as int),
                (match parse_varint(s, p0 + i, (max - i) as int) {
                    Some(vn) => parse_varint(s, p0, max as int) == Some(
                        ((x + mult * vn.0) as nat, i + vn.1),
                    ),
                    None => parse_varint(s, p0, max as int) is None,
                }),
            decreases max - i,
        {
            proof {
                lemma_pow128_mono(i as nat, 9);
                lemma_pow128_9_value();
            }
            let p = self.pos;
            if p >= self.buf.len() {
                return None;
            }
            let b: u8 = self.buf[p];
            assert(b == s[p0 + i]);
            if b < 128 {
                self.pos = p + 1;
                assert(parse_varint(s, p0 + i, (max - i) as int) == Some((b as nat, 1int)));
                proof {
                    assert(x + (b as u128) * mult < 0x400000000000000000) by (nonlinear_arith)
                        requires
                            x < mult,
                            (b as u128) < 128,
                            0 < mult,
                            mult <= 0x8000000000000000,
                    ;
                }
                let ret: u128 = x + (b as u128) * mult;
                proof {
                    assert(parse_varint(s, p0, max as int) == Some(
                        ((x + mult * (b as nat)) as nat, i as int + 1),
                    ));
                    assert(ret as nat == (x + mult * (b as nat)) as nat) by (nonlinear_arith)
                        requires
                            ret == x + (b as u128) * mult,
                    ;
                }
                return Some(ret);
            }
            let low: u128 = (b - 128) as u128;
            proof {
                assert(x + low * mult < 128 * mult) by (nonlinear_arith)
                    requires
                        x < mult,
                        low < 128,
                        0 < mult,
                ;
            }
            let ghost x_old = x;
            let ghost mult_old = mult;
            x = x + low * mult;
            mult = mult * 128;
            self.pos = p + 1;
            i = i + 1;
            proof {
                assert(mult == pow128(i as nat));
                assert(varint_used(s, p0 + i - 1, (max - (i - 1)) as int) == 1 + varint_used(
                    s,
                    p0 + i,
                    (max - i) as int,
                ));
                match parse_varint(s, p0 + i, (max - i) as int) {
                    Some(vn) => {
                        assert(parse_varint(s, p0 + i - 1, (max - (i - 1)) as int) == Some(
                            (((low as int) + 128 * vn.0) as nat, vn.1 + 1),
                        ));
                        assert(x_old + mult_old * ((low as int) + 128 * vn.0) == x + mult * vn.0)
                            by (nonlinear_arith)
                            requires
                                x == x_old + low * mult_old,
                                mult == mult_old * 128,
                        ;
                    },
                    None => {
                        assert(parse_varint(s, p0 + i - 1, (max - (i - 1)) as int) is None);
                    },
                }
            }
        }
        None
    }
}

/// `pow128(9)` written out, so group sums stay comfortably inside `u128`.
pub proof fn lemma_pow128_9_value()
    ensures
        pow128(9) == 0x8000000000000000,
        pow128(10) == 0x400000000000000000,
{
    reveal_with_fuel(pow128, 11);
}

} // verus!
