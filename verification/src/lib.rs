//! Polyglot: a self-describing binary serialization codec.
//!
//! Values are encoded as a tagged byte stream: each value carries a one-byte
//! kind tag, integers use a continuation-bit varint encoding (signed values
//! go through a zigzag transform first), and every length field is itself a
//! fully tagged `u32` value, so the stream is self-describing at every level.
//! The reader restores its position on a tag mismatch, which lets a caller
//! probe for one kind and retry with another.

pub mod cursor;
pub mod decoder;
pub mod encoder;
pub mod kind;
pub mod laws;
pub mod wire;

pub use cursor::Cursor;
pub use decoder::DecodingError;
pub use kind::Kind;
