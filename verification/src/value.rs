//! Typed values read out of target memory.
//!
//! A raw byte pattern is never trusted as a typed value: each type states
//! which patterns are legal for it and what value a legal pattern denotes,
//! and decoding rejects everything else.

use vstd::bytes::{spec_u32_from_le_bytes, spec_u64_from_le_bytes, u32_from_le_bytes, u64_from_le_bytes};
use vstd::prelude::*;

verus! {

/// A fixed-size plain-data type that can be decoded from target memory.
///
/// `size` is the byte width of the representation, `valid` the set of legal
/// byte patterns, and `decode_spec` the value a legal pattern denotes.
/// Multi-byte integers are stored little-endian, as in the target processes
/// this library is aimed at.
pub trait MemValue: Sized {
    /// Byte width of the value's representation in target memory.
    spec fn size() -> nat;

    /// Whether `bytes` is a legal representation of the type.
    spec fn valid(bytes: Seq<u8>) -> bool;

    /// The value that a legal `bytes` represents.
    spec fn decode_spec(bytes: Seq<u8>) -> Self;

    /// Byte width of the representation, as executable code.
    fn byte_size() -> (n: usize)
        ensures
            n as nat == Self::size(),
    ;

    /// Decodes `bytes`, accepting exactly the legal representations.
    fn decode(bytes: &[u8]) -> (r: Option<Self>)
        requires
            bytes@.len() == Self::size(),
        ensures
            match r {
                Some(v) => Self::valid(bytes@) && v == Self::decode_spec(bytes@),
                None => !Self::valid(bytes@),
            },
    ;
}

impl MemValue for u8 {
    open spec fn size() -> nat {
        1
    }

    open spec fn valid(bytes: Seq<u8>) -> bool {
        true
    }

    open spec fn decode_spec(bytes: Seq<u8>) -> Self {
        bytes[0]
    }

    fn byte_size() -> (n: usize) {
        1
    }

    fn decode(bytes: &[u8]) -> (r: Option<Self>) {
        Some(bytes[0])
    }
}

impl MemValue for u32 {
    open spec fn size() -> nat {
        4
    }

    open spec fn valid(bytes: Seq<u8>) -> bool {
        true
    }

    open spec fn decode_spec(bytes: Seq<u8>) -> Self {
        spec_u32_from_le_bytes(bytes)
    }

    fn byte_size() -> (n: usize) {
        4
    }

    fn decode(bytes: &[u8]) -> (r: Option<Self>) {
        Some(u32_from_le_bytes(bytes))
    }
}

impl MemValue for u64 {
    open spec fn size() -> nat {
        8
    }

    open spec fn valid(bytes: Seq<u8>) -> bool {
        true
    }

    open spec fn decode_spec(bytes: Seq<u8>) -> Self {
        spec_u64_from_le_bytes(bytes)
    }

    fn byte_size() -> (n: usize) {
        8
    }

    fn decode(bytes: &[u8]) -> (r: Option<Self>) {
        Some(u64_from_le_bytes(bytes))
    }
}

impl MemValue for bool {
    open spec fn size() -> nat {
        1
    }

    /// Only 0 and 1 are legal encodings of a boolean.
    open spec fn valid(bytes: Seq<u8>) -> bool {
        bytes[0] == 0 || bytes[0] == 1
    }

    open spec fn decode_spec(bytes: Seq<u8>) -> Self {
        bytes[0] == 1
    }

    fn byte_size() -> (n: usize) {
        1
    }

    fn decode(bytes: &[u8]) -> (r: Option<Self>) {
        if bytes[0] == 0 {
            Some(false)
        } else if bytes[0] == 1 {
            Some(true)
        } else {
            None
        }
    }
}

} // verus!
