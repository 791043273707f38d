use vstd::prelude::*;

use crate::account::AccountId;

verus! {

/// The address of a storage slot: an account's balance, or what a spender
/// may still move out of an owner's balance.
#[derive(Clone, Copy, Debug)]
pub enum StorageKey {
    Balance(AccountId),
    Allowance(AccountId, AccountId),
}

impl StorageKey {
    pub fn same_as(&self, other: &StorageKey) -> (r: bool)
        ensures
            r == (*self == *other),
    {
        match (self, other) {
            (StorageKey::Balance(a), StorageKey::Balance(b)) => a.same_as(b),
            (StorageKey::Allowance(o1, s1), StorageKey::Allowance(o2, s2)) => {
                o1.same_as(o2) && s1.same_as(s2)
            },
            _ => false,
        }
    }
}

impl PartialEq for StorageKey {
    fn eq(&self, other: &StorageKey) -> (r: bool) {
        self.same_as(other)
    }
}

impl vstd::std_specs::cmp::PartialEqSpecImpl for StorageKey {
    open spec fn obeys_eq_spec() -> bool {
        true
    }

    open spec fn eq_spec(&self, other: &StorageKey) -> bool {
        *self == *other
    }
}

impl Eq for StorageKey {
}

/// The slot that holds `account`'s balance.
pub fn balance_key(account: &AccountId) -> (r: StorageKey)
    ensures
        r == StorageKey::Balance(*account),
{
    StorageKey::Balance(*account)
}

/// The slot that holds what `spender` may still move out of `owner`'s balance.
pub fn allowance_key(owner: &AccountId, spender: &AccountId) -> (r: StorageKey)
    ensures
        r == StorageKey::Allowance(*owner, *spender),
{
    StorageKey::Allowance(*owner, *spender)
}

/// Key derivation never lets two different entries share a slot: distinct
/// accounts get distinct balance slots, distinct (owner, spender) pairs get
/// distinct allowance slots (the order counts), and no balance slot is an
/// allowance slot.
pub proof fn lemma_keys_injective(
    a: AccountId,
    b: AccountId,
    owner1: AccountId,
    spender1: AccountId,
    owner2: AccountId,
    spender2: AccountId,
)
    ensures
        (StorageKey::Balance(a) == StorageKey::Balance(b)) <==> a == b,
        (StorageKey::Allowance(owner1, spender1) == StorageKey::Allowance(owner2, spender2)) <==> (
        owner1 == owner2 && spender1 == spender2),
        StorageKey::Balance(a) != StorageKey::Allowance(owner1, spender1),
{
}

} // verus!
