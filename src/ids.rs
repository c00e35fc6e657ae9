//! Identities of players and of room instances: 32-byte hashes.
use vstd::prelude::*;

use crate::hex::{hex_of, hex_pair_value, is_hex32, parse_hex32, to_hex};

verus! {

broadcast use vstd::array::group_array_axioms;

/// Compares two 32-byte hashes byte by byte.
pub fn hash_bytes_eq(a: &[u8; 32], b: &[u8; 32]) -> (r: bool)
    ensures
        r == (a@ == b@),
{
    let mut i: usize = 0;
    while i < 32
        invariant
            i <= 32,
            forall|j: int| 0 <= j < i ==> a@[j] == b@[j],
        decreases 32 - i,
    {
        if a[i] != b[i] {
            return false;
        }
        i = i + 1;
    }
    assert(a@ =~= b@);
    true
}

/// The identity of a player: the 32-byte hash that names an account owner.
#[derive(Clone, Copy, Debug, Hash)]
pub struct Owner {
    pub bytes: [u8; 32],
}

impl PartialEq for Owner {
    fn eq(&self, other: &Owner) -> (r: bool) {
        let r = hash_bytes_eq(&self.bytes, &other.bytes);
        proof {
            if r {
                assert(self.bytes =~= other.bytes);
            }
        }
        r
    }
}

impl vstd::std_specs::cmp::PartialEqSpecImpl for Owner {
    open spec fn obeys_eq_spec() -> bool {
        true
    }

    open spec fn eq_spec(&self, other: &Owner) -> bool {
        *self == *other
    }
}

impl Eq for Owner {}

impl Owner {
    /// The owner's text: its 32 bytes in lower-case hexadecimal.
    pub fn to_hex_string(&self) -> (r: String)
        ensures
            r@ == hex_of(self.bytes@),
    {
        to_hex(&self.bytes)
    }

    /// The owner that 64 hexadecimal digits write; none for any other text.
    pub fn from_hex(s: &str) -> (r: Option<Owner>)
        ensures
            r is Some <==> is_hex32(s@),
            r matches Some(v) ==> forall|i: int|
                0 <= i < 32 ==> #[trigger] v.bytes@[i] == hex_pair_value(s@, i),
    {
        match parse_hex32(s) {
            Some(bytes) => Some(Owner { bytes }),
            None => None,
        }
    }
}


/// The identifier of a room instance: the 32-byte hash that names a chain.
#[derive(Clone, Copy, Debug, Hash)]
pub struct ChainId {
    pub bytes: [u8; 32],
}

impl PartialEq for ChainId {
    fn eq(&self, other: &ChainId) -> (r: bool) {
        let r = hash_bytes_eq(&self.bytes, &other.bytes);
        proof {
            if r {
                assert(self.bytes =~= other.bytes);
            }
        }
        r
    }
}

impl vstd::std_specs::cmp::PartialEqSpecImpl for ChainId {
    open spec fn obeys_eq_spec() -> bool {
        true
    }

    open spec fn eq_spec(&self, other: &ChainId) -> bool {
        *self == *other
    }
}

impl Eq for ChainId {}

impl ChainId {
    /// The chain's text: its 32 bytes in lower-case hexadecimal.
    pub fn to_hex_string(&self) -> (r: String)
        ensures
            r@ == hex_of(self.bytes@),
    {
        to_hex(&self.bytes)
    }

    /// The chain that 64 hexadecimal digits write; none for any other text.
    pub fn from_hex(s: &str) -> (r: Option<ChainId>)
        ensures
            r is Some <==> is_hex32(s@),
            r matches Some(v) ==> forall|i: int|
                0 <= i < 32 ==> #[trigger] v.bytes@[i] == hex_pair_value(s@, i),
    {
        match parse_hex32(s) {
            Some(bytes) => Some(ChainId { bytes }),
            None => None,
        }
    }
}

} // verus!
