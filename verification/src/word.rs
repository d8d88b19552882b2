//! Unsigned integers of nine and twelve bits.

use vstd::prelude::*;

verus! {

/// One more than the largest nine-bit value.
pub const U9_LIMIT: u16 = 512;

/// One more than the largest twelve-bit value.
pub const U12_LIMIT: u16 = 4096;

/// An unsigned integer of nine bits: a value below 512.
#[derive(Clone, Copy, Debug, PartialEq, Eq)]
pub struct U9 {
    bits: u16,
}

impl View for U9 {
    type V = nat;

    closed spec fn view(&self) -> nat {
        self.bits as nat
    }
}

impl U9 {
    #[verifier::type_invariant]
    spec fn in_range(&self) -> bool {
        self.bits < U9_LIMIT
    }

    /// The nine-bit integer `v`, where `v` is below 512.
    pub fn new(v: u16) -> (r: Option<U9>)
        ensures
            r is Some <==> v < U9_LIMIT,
            r is Some ==> r->0@ == v,
    {
        if v < U9_LIMIT {
            Some(U9 { bits: v })
        } else {
            None
        }
    }

    /// The integer as a `u16`.
    pub fn value(&self) -> (r: u16)
        ensures
            r == self@,
            r < U9_LIMIT,
    {
        proof {
            use_type_invariant(self);
        }
        self.bits
    }
}

/// An unsigned integer of twelve bits: a value below 4096.
#[derive(Clone, Copy, Debug, PartialEq, Eq)]
pub struct U12 {
    bits: u16,
}

impl View for U12 {
    type V = nat;

    closed spec fn view(&self) -> nat {
        self.bits as nat
    }
}

impl U12 {
    #[verifier::type_invariant]
    spec fn in_range(&self) -> bool {
        self.bits < U12_LIMIT
    }

    /// The twelve-bit integer `v`, where `v` is below 4096.
    pub fn new(v: u16) -> (r: Option<U12>)
        ensures
            r is Some <==> v < U12_LIMIT,
            r is Some ==> r->0@ == v,
    {
        if v < U12_LIMIT {
            Some(U12 { bits: v })
        } else {
            None
        }
    }

    /// The integer as a `u16`.
    pub fn value(&self) -> (r: u16)
        ensures
            r == self@,
            r < U12_LIMIT,
    {
        proof {
            use_type_invariant(self);
        }
        self.bits
    }
}

} // verus!
