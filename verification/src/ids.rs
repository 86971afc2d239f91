//! Opaque 128-bit identifiers for users, sessions and refresh credentials,
//! rendered in the usual hyphenated form for cache keys.

use vstd::prelude::*;

use crate::hex::{push_hex_digits, spec_hex_digits};

verus! {

/// An opaque 128-bit identifier, held as two 64-bit halves.
#[derive(Clone, Copy, Debug, PartialEq, Eq, Structural)]
pub struct Id {
    pub hi: u64,
    pub lo: u64,
}

impl Id {
    /// The identifier as a single 128-bit value.
    pub open spec fn spec_u128(self) -> nat {
        (self.hi * 0x10000000000000000 + self.lo) as nat
    }

    pub fn from_u128(v: u128) -> (r: Id)
        ensures
            r.spec_u128() == v,
    {
        Id { hi: (v / 0x10000000000000000) as u64, lo: (v % 0x10000000000000000) as u64 }
    }

    pub fn to_u128(self) -> (r: u128)
        ensures
            r == self.spec_u128(),
    {
        (self.hi as u128) * 0x10000000000000000 + (self.lo as u128)
    }

    /// The identifier's 32 hex digits in five hyphen-separated groups,
    /// most significant digit first.
    pub open spec fn spec_hyphenated(self) -> Seq<char> {
        spec_hex_digits((self.hi / 0x100000000) as u64, 8) + seq!['-'] + spec_hex_digits(
            (self.hi / 0x10000) as u64,
            4,
        ) + seq!['-'] + spec_hex_digits(self.hi, 4) + seq!['-'] + spec_hex_digits(
            (self.lo / 0x1000000000000) as u64,
            4,
        ) + seq!['-'] + spec_hex_digits(self.lo, 12)
    }

    pub fn hyphenated(self) -> (r: String)
        ensures
            r@ == self.spec_hyphenated(),
    {
        let mut s = String::new();
        push_hex_digits(&mut s, self.hi / 0x100000000, 8);
        s.push('-');
        push_hex_digits(&mut s, self.hi / 0x10000, 4);
        s.push('-');
        push_hex_digits(&mut s, self.hi, 4);
        s.push('-');
        push_hex_digits(&mut s, self.lo / 0x1000000000000, 4);
        s.push('-');
        push_hex_digits(&mut s, self.lo, 12);
        proof {
            assert(s@ =~= self.spec_hyphenated());
        }
        s
    }
}

} // verus!
