use vstd::prelude::*;

use crate::amount::{U256, zero_amount};
use crate::key::StorageKey;

verus! {

/// What a slot adds to the sum of all balances: its value where it holds a
/// balance, nothing where it holds an allowance.
pub open spec fn slot_weight(key: StorageKey, value: U256) -> nat {
    match key {
        StorageKey::Balance(_) => value.value(),
        StorageKey::Allowance(_, _) => 0,
    }
}

/// The sum of the balance slots among `slots`.
pub open spec fn sum_balance_slots(slots: Seq<(StorageKey, U256)>) -> nat
    decreases slots.len(),
{
    if slots.len() == 0 {
        0
    } else {
        sum_balance_slots(slots.drop_last()) + slot_weight(slots.last().0, slots.last().1)
    }
}

proof fn lemma_sum_push(slots: Seq<(StorageKey, U256)>, slot: (StorageKey, U256))
    ensures
        sum_balance_slots(slots.push(slot)) == sum_balance_slots(slots) + slot_weight(slot.0, slot.1),
{
    assert(slots.push(slot).drop_last() =~= slots);
}

proof fn lemma_sum_update(slots: Seq<(StorageKey, U256)>, i: int, slot: (StorageKey, U256))
    requires
        0 <= i < slots.len(),
    ensures
        sum_balance_slots(slots.update(i, slot)) + slot_weight(slots[i].0, slots[i].1)
            == sum_balance_slots(slots) + slot_weight(slot.0, slot.1),
    decreases slots.len(),
{
    if i == slots.len() - 1 {
        assert(slots.update(i, slot).drop_last() =~= slots.drop_last());
    } else {
        assert(slots.update(i, slot).drop_last() =~= slots.drop_last().update(i, slot));
        lemma_sum_update(slots.drop_last(), i, slot);
    }
}

/// A keyed store of amounts. A read of a slot that was never written gives
/// zero and creates nothing; the first write to a key creates its slot, later
/// writes overwrite it.
pub struct Storage {
    slots: Vec<(StorageKey, U256)>,
}

impl View for Storage {
    type V = Map<StorageKey, U256>;

    /// The slots that exist, each with its value.
    closed spec fn view(&self) -> Map<StorageKey, U256> {
        Map::new(
            |k: StorageKey| exists|i: int| 0 <= i < self.slots@.len() && self.slots@[i].0 == k,
            |k: StorageKey|
                self.slots@[choose|i: int| 0 <= i < self.slots@.len() && self.slots@[i].0 == k].1,
        )
    }
}

impl Storage {
    /// No key has two slots.
    #[verifier::type_invariant]
    closed spec fn keys_unique(self) -> bool {
        forall|i: int, j: int|
            0 <= i < j < self.slots@.len() ==> #[trigger] self.slots@[i].0 != #[trigger] self.slots@[
                j].0
    }

    /// The sum of every balance the store holds.
    pub closed spec fn balance_total(self) -> nat {
        sum_balance_slots(self.slots@)
    }

    /// What a read of `key` gives: the stored value, or zero where no slot exists.
    pub open spec fn read(self, key: StorageKey) -> U256 {
        if self@.contains_key(key) {
            self@[key]
        } else {
            zero_amount()
        }
    }

    proof fn lemma_slot_is_view(self, i: int)
        requires
            self.keys_unique(),
            0 <= i < self.slots@.len(),
        ensures
            self@.contains_key(self.slots@[i].0),
            self@[self.slots@[i].0] == self.slots@[i].1,
    {
        let k = self.slots@[i].0;
        assert(exists|j: int| 0 <= j < self.slots@.len() && self.slots@[j].0 == k);
        let c = choose|j: int| 0 <= j < self.slots@.len() && self.slots@[j].0 == k;
        assert(c == i) by {
            if c < i {
                assert(self.slots@[c].0 != self.slots@[i].0);
            } else if i < c {
                assert(self.slots@[i].0 != self.slots@[c].0);
            }
        }
    }

    /// A store with no slots.
    pub fn new() -> (r: Storage)
        ensures
            r@ == Map::<StorageKey, U256>::empty(),
            r.balance_total() == 0,
    {
        let r = Storage { slots: Vec::new() };
        assert(r@ =~= Map::<StorageKey, U256>::empty());
        r
    }

    /// Where `key`'s slot stands, if it exists.
    fn position(&self, key: &StorageKey) -> (r: Option<usize>)
        ensures
            r is Some <==> self@.contains_key(*key),
            r matches Some(i) ==> i < self.slots@.len() && self.slots@[i as int].0 == *key,
    {
        let mut i: usize = 0;
        while i < self.slots.len()
            invariant
                0 <= i <= self.slots@.len(),
                forall|j: int| 0 <= j < i ==> self.slots@[j].0 != *key,
            decreases self.slots@.len() - i,
        {
            if self.slots[i].0.same_as(key) {
                return Some(i);
            }
            i = i + 1;
        }
        None
    }

    /// Reads `key`: its stored value, or zero where it has no slot yet.
    pub fn get(&self, key: &StorageKey) -> (r: U256)
        ensures
            r == self.read(*key),
    {
        proof {
            use_type_invariant(self);
        }
        match self.position(key) {
            Some(i) => {
                proof {
                    self.lemma_slot_is_view(i as int);
                }
                self.slots[i].1
            },
            None => U256::zero(),
        }
    }

    /// Writes `value` under `key`, creating the slot on first write.
    pub fn set(&mut self, key: StorageKey, value: U256)
        ensures
            final(self)@ == old(self)@.insert(key, value),
            final(self).balance_total() + slot_weight(key, old(self).read(key))
                == old(self).balance_total() + slot_weight(key, value),
    {
        proof {
            use_type_invariant(&*self);
        }
        let ghost before = *self;
        match self.position(&key) {
            Some(i) => {
                let mut slots: Vec<(StorageKey, U256)> = Vec::new();
                std::mem::swap(&mut self.slots, &mut slots);
                slots.set(i, (key, value));
                proof {
                    before.lemma_slot_is_view(i as int);
                    lemma_sum_update(before.slots@, i as int, (key, value));
                }
                assert forall|a: int, b: int|
                    0 <= a < b < slots@.len() implies #[trigger] slots@[a].0
                    != #[trigger] slots@[b].0 by {
                    assert(before.slots@[a].0 != before.slots@[b].0);
                }
                *self = Storage { slots };
                assert forall|k: StorageKey| #[trigger]
                    self@.contains_key(k) == before@.insert(key, value).contains_key(k) by {
                    if exists|j: int| 0 <= j < self.slots@.len() && self.slots@[j].0 == k {
                        let j = choose|j: int| 0 <= j < self.slots@.len() && self.slots@[j].0 == k;
                        if j != i {
                            assert(before.slots@[j].0 == k);
                        }
                    }
                    if before@.contains_key(k) {
                        let j = choose|j: int|
                            0 <= j < before.slots@.len() && before.slots@[j].0 == k;
                        assert(self.slots@[j].0 == k);
                    }
                }
                assert forall|k: StorageKey| #[trigger] self@.contains_key(k) implies self@[k]
                    == before@.insert(key, value)[k] by {
                    let j = choose|j: int| 0 <= j < self.slots@.len() && self.slots@[j].0 == k;
                    self.lemma_slot_is_view(j);
                    if j != i {
                        before.lemma_slot_is_view(j);
                    }
                }
                assert(self@ =~= before@.insert(key, value));
            },
            None => {
                let mut slots: Vec<(StorageKey, U256)> = Vec::new();
                std::mem::swap(&mut self.slots, &mut slots);
                slots.push((key, value));
                proof {
                    lemma_sum_push(before.slots@, (key, value));
                }
                let ghost n = before.slots@.len() as int;
                assert forall|a: int, b: int|
                    0 <= a < b < slots@.len() implies #[trigger] slots@[a].0
                    != #[trigger] slots@[b].0 by {
                    if b == n {
                        assert(before.slots@[a].0 != key) by {
                            if before.slots@[a].0 == key {
                                assert(before@.contains_key(key));
                            }
                        }
                    } else {
                        assert(before.slots@[a].0 != before.slots@[b].0);
                    }
                }
                *self = Storage { slots };
                assert forall|k: StorageKey| #[trigger]
                    self@.contains_key(k) == before@.insert(key, value).contains_key(k) by {
                    if exists|j: int| 0 <= j < self.slots@.len() && self.slots@[j].0 == k {
                        let j = choose|j: int| 0 <= j < self.slots@.len() && self.slots@[j].0 == k;
                        if j != n {
                            assert(before.slots@[j].0 == k);
                        }
                    }
                    if before@.contains_key(k) {
                        let j = choose|j: int|
                            0 <= j < before.slots@.len() && before.slots@[j].0 == k;
                        assert(self.slots@[j].0 == k);
                    }
                    if k == key {
                        assert(self.slots@[n].0 == k);
                    }
                }
                assert forall|k: StorageKey| #[trigger] self@.contains_key(k) implies self@[k]
                    == before@.insert(key, value)[k] by {
                    let j = choose|j: int| 0 <= j < self.slots@.len() && self.slots@[j].0 == k;
                    self.lemma_slot_is_view(j);
                    if j != n {
                        before.lemma_slot_is_view(j);
                    }
                }
                assert(self@ =~= before@.insert(key, value));
            },
        }
    }
}

} // verus!
