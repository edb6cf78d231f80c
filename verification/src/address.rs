//! A numeric handle for a location in another process's address space.

use vstd::prelude::*;

verus! {

/// An address in the target process.
///
/// Addresses are plain 64-bit values; a 32-bit pointer read from a narrow
/// target is zero-extended into one. The all-zero address is the
/// distinguished null value, from which no pointer chain can start.
#[derive(Clone, Copy, Debug, PartialEq, Eq, Hash, Structural)]
pub struct Address {
    raw: u64,
}

impl View for Address {
    type V = u64;

    closed spec fn view(&self) -> u64 {
        self.raw
    }
}

impl Address {
    /// Builds an address from a full 64-bit pointer value.
    pub fn new(raw: u64) -> (r: Self)
        ensures
            r@ == raw,
    {
        Address { raw }
    }

    /// Builds an address from a 32-bit pointer value, zero-extending it.
    pub fn from_narrow(raw: u32) -> (r: Self)
        ensures
            r@ == raw as u64,
    {
        Address { raw: raw as u64 }
    }

    /// The raw 64-bit value of the address.
    pub fn value(&self) -> (r: u64)
        ensures
            r == self@,
    {
        self.raw
    }

    /// Whether this is the distinguished null address.
    pub fn is_null(&self) -> (r: bool)
        ensures
            r <==> self@ == 0,
    {
        self.raw == 0
    }

    /// Adds a byte offset, wrapping around the 64-bit address space.
    pub fn offset_by(&self, offset: u64) -> (r: Self)
        ensures
            r@ == self@.wrapping_add(offset),
    {
        Address { raw: self.raw.wrapping_add(offset) }
    }
}

impl Default for Address {
    /// The null address.
    fn default() -> (r: Self)
        ensures
            r@ == 0,
    {
        Address { raw: 0 }
    }
}

} // verus!
