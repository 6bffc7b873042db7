//! Identifiers made of key bytes.

use vstd::prelude::*;
use vstd::std_specs::cmp::PartialEqSpecImpl;

verus! {

/// Whether two arrays of 32 bytes hold the same bytes.
pub fn bytes32_eq(a: &[u8; 32], b: &[u8; 32]) -> (same: bool)
    ensures
        same == (*a == *b),
{
    let mut i: usize = 0;
    while i < 32
        invariant
            i <= 32,
            forall|j: int| 0 <= j < i ==> a[j] == b[j],
        decreases 32 - i,
    {
        if a[i] != b[i] {
            return false;
        }
        i += 1;
    }
    assert(*a =~= *b);
    true
}

/// The identifier of a namespace: one logical partition of the data that
/// peers synchronise.
#[derive(Debug, Clone, Copy, Eq, Hash)]
pub struct NamespaceId(pub [u8; 32]);

impl NamespaceId {
    /// The identifier made of the given bytes.
    pub fn from_bytes(bytes: [u8; 32]) -> (id: Self)
        ensures
            id.0 == bytes,
    {
        NamespaceId(bytes)
    }

    /// The bytes of this identifier.
    pub fn as_bytes(&self) -> (bytes: &[u8; 32])
        ensures
            *bytes == self.0,
    {
        &self.0
    }
}

impl PartialEq for NamespaceId {
    fn eq(&self, other: &Self) -> (same: bool) {
        bytes32_eq(&self.0, &other.0)
    }
}

impl PartialEqSpecImpl for NamespaceId {
    open spec fn obeys_eq_spec() -> bool {
        true
    }

    open spec fn eq_spec(&self, other: &Self) -> bool {
        *self == *other
    }
}

} // verus!
