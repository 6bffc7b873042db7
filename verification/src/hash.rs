//! Content hashes.

use crate::proto::keys::bytes32_eq;
use vstd::prelude::*;
use vstd::std_specs::cmp::PartialEqSpecImpl;

verus! {

/// The hash of a blob: 32 bytes that name its content.
#[derive(Debug, Clone, Copy, Eq)]
pub struct Hash(pub [u8; 32]);

impl Hash {
    /// The hash made of the given bytes.
    pub fn from_bytes(bytes: [u8; 32]) -> (hash: Self)
        ensures
            hash.0 == bytes,
    {
        Hash(bytes)
    }

    /// The bytes of this hash.
    pub fn as_bytes(&self) -> (bytes: &[u8; 32])
        ensures
            *bytes == self.0,
    {
        &self.0
    }
}

impl PartialEq for Hash {
    fn eq(&self, other: &Self) -> (same: bool) {
        bytes32_eq(&self.0, &other.0)
    }
}

impl PartialEqSpecImpl for Hash {
    open spec fn obeys_eq_spec() -> bool {
        true
    }

    open spec fn eq_spec(&self, other: &Self) -> bool {
        *self == *other
    }
}

} // verus!
