//! Account identifiers.

use vstd::prelude::*;

verus! {

/// Number of bytes in an account identifier.
pub const ADDRESS_LEN: usize = 32;

/// A 32-byte account identifier. Two addresses are the same account exactly
/// when all their bytes agree.
#[derive(Clone, Copy, Debug)]
pub struct Address {
    pub bytes: [u8; 32],
}

/// The address whose bytes are `bytes`, for a sequence of 32 bytes.
pub open spec fn address_from(bytes: Seq<u8>) -> Address {
    choose|a: Address| a.bytes@ == bytes
}

/// The address that a payload names: its first 32 bytes, if it has that many.
pub open spec fn address_prefix(data: Seq<u8>) -> Option<Address> {
    if data.len() >= 32 {
        Some(address_from(data.subrange(0, 32)))
    } else {
        None
    }
}

impl Address {
    /// Builds an address from its raw bytes.
    pub fn new(bytes: [u8; 32]) -> (a: Address)
        ensures
            a.bytes == bytes,
    {
        Address { bytes }
    }

    /// Reads an address from the first 32 bytes of `data`, if there are that
    /// many.
    pub fn from_prefix(data: &Vec<u8>) -> (r: Option<Address>)
        ensures
            r == address_prefix(data@),
            r is Some <==> data@.len() >= 32,
            r matches Some(a) ==> a.bytes@ == data@.subrange(0, 32),
    {
        if data.len() < ADDRESS_LEN {
            return None;
        }
        let mut bytes: [u8; 32] = [0u8; 32];
        let mut i: usize = 0;
        while i < ADDRESS_LEN
            invariant
                i <= 32,
                data@.len() >= 32,
                forall|j: int| 0 <= j < i ==> bytes@[j] == data@[j],
            decreases 32 - i,
        {
            bytes[i] = data[i];
            i = i + 1;
        }
        assert(bytes@ =~= data@.subrange(0, 32));
        let found = Address { bytes };
        proof {
            let named = address_from(data@.subrange(0, 32));
            assert(named.bytes@ =~= found.bytes@);
            assert(named.bytes == found.bytes);
        }
        Some(found)
    }
}

impl PartialEq for Address {
    fn eq(&self, other: &Address) -> (r: bool) {
        let mut i: usize = 0;
        while i < ADDRESS_LEN
            invariant
                i <= 32,
                forall|j: int| 0 <= j < i ==> self.bytes@[j] == other.bytes@[j],
            decreases 32 - i,
        {
            if self.bytes[i] != other.bytes[i] {
                return false;
            }
            i = i + 1;
        }
        assert(self.bytes@ =~= other.bytes@);
        assert(self.bytes == other.bytes);
        true
    }
}

impl Eq for Address {}

impl vstd::std_specs::cmp::PartialEqSpecImpl for Address {
    open spec fn obeys_eq_spec() -> bool {
        true
    }

    open spec fn eq_spec(&self, other: &Address) -> bool {
        *self == *other
    }
}

} // verus!
