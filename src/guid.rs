//! Globally unique identifiers.
use vstd::prelude::*;

verus! {

/// A globally unique identifier: 16 bytes, read as one big-endian integer.
#[derive(Clone, Copy, Debug, PartialEq, Eq, Structural)]
pub struct Guid(pub u128);

impl Guid {
    /// A guid from its 16 bytes read as a big-endian integer.
    pub fn from_u128(v: u128) -> (r: Guid)
        ensures
            r.0 == v,
    {
        Guid(v)
    }

    /// The guid's 16 bytes read as a big-endian integer.
    pub fn as_u128(self) -> (r: u128)
        ensures
            r == self.0,
    {
        self.0
    }
}

} // verus!
