//! Bitmask over HTTP verbs, used to register one service for several verbs
//! in a single call.

use vstd::prelude::*;
use crate::method::Method;

verus! {

/// A set of HTTP verbs, encoded as a bitmask.
#[derive(Debug, Copy, Clone, PartialEq, Eq, Structural)]
pub struct MethodFilter(pub u16);

pub const FILTER_DELETE: u16 = 0b000000010;
pub const FILTER_GET: u16 = 0b000000100;
pub const FILTER_HEAD: u16 = 0b000001000;
pub const FILTER_OPTIONS: u16 = 0b000010000;
pub const FILTER_PATCH: u16 = 0b000100000;
pub const FILTER_POST: u16 = 0b001000000;
pub const FILTER_PUT: u16 = 0b010000000;
pub const FILTER_TRACE: u16 = 0b100000000;

/// The single bit that stands for one verb.
pub open spec fn spec_method_bit(m: Method) -> u16 {
    match m {
        Method::Delete => FILTER_DELETE,
        Method::Get => FILTER_GET,
        Method::Head => FILTER_HEAD,
        Method::Options => FILTER_OPTIONS,
        Method::Patch => FILTER_PATCH,
        Method::Post => FILTER_POST,
        Method::Put => FILTER_PUT,
        Method::Trace => FILTER_TRACE,
    }
}

impl MethodFilter {
    /// The raw bits of the mask.
    pub open spec fn spec_bits(self) -> u16 {
        self.0
    }

    /// Whether the mask includes the given verb.
    pub open spec fn spec_has(self, m: Method) -> bool {
        self.0 & spec_method_bit(m) == spec_method_bit(m)
    }

    /// The raw bits of the mask.
    pub fn bits(&self) -> (r: u16)
        ensures
            r == self.spec_bits(),
    {
        self.0
    }

    /// A mask from raw bits.
    pub fn from_bits(bits: u16) -> (r: Self)
        ensures
            r.spec_bits() == bits,
    {
        MethodFilter(bits)
    }

    /// The mask for a single verb.
    pub fn of_method(m: Method) -> (r: Self)
        ensures
            r.spec_bits() == spec_method_bit(m),
    {
        let bits: u16 = match m {
            Method::Delete => FILTER_DELETE,
            Method::Get => FILTER_GET,
            Method::Head => FILTER_HEAD,
            Method::Options => FILTER_OPTIONS,
            Method::Patch => FILTER_PATCH,
            Method::Post => FILTER_POST,
            Method::Put => FILTER_PUT,
            Method::Trace => FILTER_TRACE,
        };
        MethodFilter(bits)
    }

    /// Whether every bit of `other` is also set in `self`.
    pub fn contains(&self, other: Self) -> (r: bool)
        ensures
            r == (self.0 & other.0 == other.0),
    {
        self.0 & other.0 == other.0
    }

    /// Whether the mask includes the given verb.
    pub fn has(&self, m: Method) -> (r: bool)
        ensures
            r == self.spec_has(m),
    {
        let bit = MethodFilter::of_method(m);
        self.contains(bit)
    }

    /// The union of two masks.
    pub fn or(&self, other: Self) -> (r: Self)
        ensures
            r.spec_bits() == self.0 | other.0,
            forall|m: Method| r.spec_has(m) <==> (self.spec_has(m) || other.spec_has(m)),
    {
        let r = MethodFilter(self.0 | other.0);
        proof {
            let x = self.0;
            let y = other.0;
            assert forall|m: Method| r.spec_has(m) <==> (self.spec_has(m) || other.spec_has(m)) by {
                let b = spec_method_bit(m);
                assert((x | y) & b == b <==> (x & b == b || y & b == b)) by (bit_vector)
                    requires
                        b == 0b10u16 || b == 0b100u16 || b == 0b1000u16 || b == 0b10000u16
                            || b == 0b100000u16 || b == 0b1000000u16 || b == 0b10000000u16
                            || b == 0b100000000u16,
                ;
            }
        }
        r
    }
}

} // verus!
