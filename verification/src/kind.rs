//! The kind registry: the closed set of wire type tags.
//!
//! Every value on the wire starts with a one-byte tag naming its kind. The
//! tag byte values are the codec's only versioning mechanism and must never
//! be reassigned. A byte outside the sixteen defined values maps to the
//! `Unknown` sentinel, which is never valid on the wire itself.

use vstd::prelude::*;

verus! {

/// One wire type. `Any` is a placeholder for heterogeneous composite
/// elements and is never emitted as a scalar value; `Unknown` exists only
/// as the decode result of an unrecognized tag byte.
#[derive(Clone, Copy, Debug, PartialEq, Eq, Structural)]
pub enum Kind {
    Nil,
    Array,
    Mapping,
    Any,
    Bytes,
    String,
    Error,
    Bool,
    U8,
    U16,
    U32,
    U64,
    I32,
    I64,
    F32,
    F64,
    Unknown,
}

/// The wire tag byte of a kind. `Unknown` has no tag of its own; it is
/// given the first unassigned byte, which never appears on the wire.
pub open spec fn spec_tag(k: Kind) -> u8 {
    match k {
        Kind::Nil => 0x00,
        Kind::Array => 0x01,
        Kind::Mapping => 0x02,
        Kind::Any => 0x03,
        Kind::Bytes => 0x04,
        Kind::String => 0x05,
        Kind::Error => 0x06,
        Kind::Bool => 0x07,
        Kind::U8 => 0x08,
        Kind::U16 => 0x09,
        Kind::U32 => 0x0a,
        Kind::U64 => 0x0b,
        Kind::I32 => 0x0c,
        Kind::I64 => 0x0d,
        Kind::F32 => 0x0e,
        Kind::F64 => 0x0f,
        Kind::Unknown => 0x10,
    }
}

/// The kind a tag byte names; `Unknown` for any byte outside the registry.
pub open spec fn spec_kind_of(tag: u8) -> Kind {
    match tag {
        0x00 => Kind::Nil,
        0x01 => Kind::Array,
        0x02 => Kind::Mapping,
        0x03 => Kind::Any,
        0x04 => Kind::Bytes,
        0x05 => Kind::String,
        0x06 => Kind::Error,
        0x07 => Kind::Bool,
        0x08 => Kind::U8,
        0x09 => Kind::U16,
        0x0a => Kind::U32,
        0x0b => Kind::U64,
        0x0c => Kind::I32,
        0x0d => Kind::I64,
        0x0e => Kind::F32,
        0x0f => Kind::F64,
        _ => Kind::Unknown,
    }
}

impl Kind {
    /// The wire tag byte of this kind.
    pub fn tag(self) -> (t: u8)
        ensures
            t == spec_tag(self),
    {
        match self {
            Kind::Nil => 0x00,
            Kind::Array => 0x01,
            Kind::Mapping => 0x02,
            Kind::Any => 0x03,
            Kind::Bytes => 0x04,
            Kind::String => 0x05,
            Kind::Error => 0x06,
            Kind::Bool => 0x07,
            Kind::U8 => 0x08,
            Kind::U16 => 0x09,
            Kind::U32 => 0x0a,
            Kind::U64 => 0x0b,
            Kind::I32 => 0x0c,
            Kind::I64 => 0x0d,
            Kind::F32 => 0x0e,
            Kind::F64 => 0x0f,
            Kind::Unknown => 0x10,
        }
    }
}

impl From<u8> for Kind {
    /// The kind named by a tag byte: total, with `Unknown` as the fallback
    /// for every byte outside the registry.
    fn from(orig: u8) -> (k: Kind)
        ensures
            k == spec_kind_of(orig),
    {
        match orig {
            0x00 => Kind::Nil,
            0x01 => Kind::Array,
            0x02 => Kind::Mapping,
            0x03 => Kind::Any,
            0x04 => Kind::Bytes,
            0x05 => Kind::String,
            0x06 => Kind::Error,
            0x07 => Kind::Bool,
            0x08 => Kind::U8,
            0x09 => Kind::U16,
            0x0a => Kind::U32,
            0x0b => Kind::U64,
            0x0c => Kind::I32,
            0x0d => Kind::I64,
            0x0e => Kind::F32,
            0x0f => Kind::F64,
            _ => Kind::Unknown,
        }
    }
}

impl vstd::std_specs::convert::FromSpecImpl<u8> for Kind {
    open spec fn obeys_from_spec() -> bool {
        true
    }

    open spec fn from_spec(orig: u8) -> Kind {
        spec_kind_of(orig)
    }
}

} // verus!
