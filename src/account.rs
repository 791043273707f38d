use vstd::prelude::*;

verus! {

broadcast use vstd::array::group_array_axioms;

/// Length in bytes of an account identifier.
pub const ACCOUNT_HASH_LENGTH: usize = 32;

/// An account identifier: the 32-byte hash that names a party.
#[derive(Clone, Copy, Debug)]
pub struct AccountId {
    pub hash: [u8; 32],
}

impl AccountId {
    pub fn new(hash: [u8; 32]) -> (r: AccountId)
        ensures
            r.hash == hash,
    {
        AccountId { hash }
    }

    /// Compares two identifiers byte by byte.
    pub fn same_as(&self, other: &AccountId) -> (r: bool)
        ensures
            r == (*self == *other),
    {
        let mut i: usize = 0;
        while i < ACCOUNT_HASH_LENGTH
            invariant
                0 <= i <= ACCOUNT_HASH_LENGTH,
                forall|j: int| 0 <= j < i ==> self.hash[j] == other.hash[j],
            decreases ACCOUNT_HASH_LENGTH - i,
        {
            if self.hash[i] != other.hash[i] {
                assert(self.hash !~= other.hash);
                return false;
            }
            i = i + 1;
        }
        assert(self.hash =~= other.hash);
        true
    }
}

impl PartialEq for AccountId {
    fn eq(&self, other: &AccountId) -> (r: bool) {
        self.same_as(other)
    }
}

impl vstd::std_specs::cmp::PartialEqSpecImpl for AccountId {
    open spec fn obeys_eq_spec() -> bool {
        true
    }

    open spec fn eq_spec(&self, other: &AccountId) -> bool {
        *self == *other
    }
}

impl Eq for AccountId {
}

} // verus!
