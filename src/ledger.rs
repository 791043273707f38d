use vstd::prelude::*;

use crate::account::AccountId;
use crate::amount::{U256, amount_bound, lemma_value_bounds};
use crate::key::{StorageKey, allowance_key, balance_key};
use crate::store::Storage;

verus! {

/// The decimal precision of every token of this kind.
pub const DECIMALS: u8 = 18;

/// Why a ledger operation was refused. A refused operation changes nothing.
#[derive(Clone, Copy, Debug, PartialEq, Eq, Structural)]
pub enum LedgerError {
    /// A subtraction would go below zero: the balance or the allowance is too small.
    Underflow,
    /// An addition would leave the 256-bit range.
    Overflow,
}

/// A fungible-token ledger: token metadata, one balance per account, and one
/// allowance per (owner, spender) pair, the last two in a keyed store.
pub struct Ledger {
    name: String,
    symbol: String,
    decimals: u8,
    total_supply: U256,
    storage: Storage,
}

/// What `account`'s balance `before` becomes when `amount` moves from
/// `sender` to `recipient`.
pub open spec fn moved_balance(
    before: nat,
    account: AccountId,
    sender: AccountId,
    recipient: AccountId,
    amount: nat,
) -> int {
    if sender == recipient {
        before as int
    } else if account == sender {
        before - amount
    } else if account == recipient {
        before as int + amount
    } else {
        before as int
    }
}

/// The outcome that goes with a refusal reason, or with none.
pub open spec fn outcome(failure: Option<LedgerError>) -> Result<(), LedgerError> {
    match failure {
        Some(e) => Err(e),
        None => Ok(()),
    }
}

impl Ledger {
    pub closed spec fn token_name(self) -> Seq<char> {
        self.name@
    }

    pub closed spec fn token_symbol(self) -> Seq<char> {
        self.symbol@
    }

    pub closed spec fn token_decimals(self) -> u8 {
        self.decimals
    }

    /// The total supply fixed at initialization.
    pub closed spec fn supply(self) -> nat {
        self.total_supply.value()
    }

    /// `account`'s balance; zero for an account never touched.
    pub closed spec fn balance(self, account: AccountId) -> nat {
        self.storage.read(StorageKey::Balance(account)).value()
    }

    /// What `spender` may still move out of `owner`'s balance; zero if never set.
    pub closed spec fn allowance_of(self, owner: AccountId, spender: AccountId) -> nat {
        self.storage.read(StorageKey::Allowance(owner, spender)).value()
    }

    /// The sum of all balances.
    pub closed spec fn total_balance(self) -> nat {
        self.storage.balance_total()
    }

    pub open spec fn same_metadata(self, other: Ledger) -> bool {
        &&& self.token_name() == other.token_name()
        &&& self.token_symbol() == other.token_symbol()
        &&& self.token_decimals() == other.token_decimals()
        &&& self.supply() == other.supply()
    }

    pub open spec fn same_balances(self, other: Ledger) -> bool {
        forall|a: AccountId| #[trigger] self.balance(a) == other.balance(a)
    }

    pub open spec fn same_allowances(self, other: Ledger) -> bool {
        forall|o: AccountId, s: AccountId| #[trigger]
            self.allowance_of(o, s) == other.allowance_of(o, s)
    }

    /// Nothing a reader can observe differs between the two ledgers.
    pub open spec fn same_state(self, other: Ledger) -> bool {
        &&& self.same_metadata(other)
        &&& self.same_balances(other)
        &&& self.same_allowances(other)
        &&& self.total_balance() == other.total_balance()
    }

    /// Why moving `amount` from `sender` to `recipient` is refused, if it is:
    /// the debit is checked first, then the credit (which cannot overflow when
    /// the two accounts are one).
    pub open spec fn transfer_failure(
        self,
        sender: AccountId,
        recipient: AccountId,
        amount: nat,
    ) -> Option<LedgerError> {
        if amount > self.balance(sender) {
            Some(LedgerError::Underflow)
        } else if sender != recipient && self.balance(recipient) + amount >= amount_bound() {
            Some(LedgerError::Overflow)
        } else {
            None
        }
    }

    /// Why `spender` moving `amount` out of `owner`'s balance to `recipient` is
    /// refused, if it is: the transfer's own checks first, then the allowance.
    pub open spec fn transfer_from_failure(
        self,
        spender: AccountId,
        owner: AccountId,
        recipient: AccountId,
        amount: nat,
    ) -> Option<LedgerError> {
        match self.transfer_failure(owner, recipient, amount) {
            Some(e) => Some(e),
            None => if amount > self.allowance_of(owner, spender) {
                Some(LedgerError::Underflow)
            } else {
                None
            },
        }
    }

    /// `self` is what initialization with these arguments establishes.
    pub open spec fn is_initialized_with(
        self,
        token_name: Seq<char>,
        token_symbol: Seq<char>,
        supply: nat,
        deployer: AccountId,
    ) -> bool {
        &&& self.token_name() == token_name
        &&& self.token_symbol() == token_symbol
        &&& self.token_decimals() == DECIMALS
        &&& self.supply() == supply
        &&& self.balance(deployer) == supply
        &&& forall|a: AccountId| a != deployer ==> #[trigger] self.balance(a) == 0
        &&& forall|o: AccountId, s: AccountId| #[trigger] self.allowance_of(o, s) == 0
        &&& self.total_balance() == supply
    }

    /// `self` is what a successful move of `amount` from `sender` to
    /// `recipient` makes of `pre`.
    pub open spec fn is_transfer_of(
        self,
        pre: Ledger,
        sender: AccountId,
        recipient: AccountId,
        amount: nat,
    ) -> bool {
        &&& self.same_metadata(pre)
        &&& self.same_allowances(pre)
        &&& self.total_balance() == pre.total_balance()
        &&& forall|a: AccountId| #[trigger]
            self.balance(a) == moved_balance(pre.balance(a), a, sender, recipient, amount)
    }

    /// `self` is what `owner` granting `spender` an allowance of `amount` makes of `pre`.
    pub open spec fn is_approve_of(
        self,
        pre: Ledger,
        owner: AccountId,
        spender: AccountId,
        amount: nat,
    ) -> bool {
        &&& self.same_metadata(pre)
        &&& self.same_balances(pre)
        &&& self.total_balance() == pre.total_balance()
        &&& self.allowance_of(owner, spender) == amount
        &&& forall|o: AccountId, s: AccountId|
            !(o == owner && s == spender) ==> #[trigger] self.allowance_of(o, s)
                == pre.allowance_of(o, s)
    }

    /// `self` is what a successful delegated move of `amount` by `spender`,
    /// out of `owner`'s balance to `recipient`, makes of `pre`.
    pub open spec fn is_transfer_from_of(
        self,
        pre: Ledger,
        spender: AccountId,
        owner: AccountId,
        recipient: AccountId,
        amount: nat,
    ) -> bool {
        &&& self.same_metadata(pre)
        &&& self.total_balance() == pre.total_balance()
        &&& forall|a: AccountId| #[trigger]
            self.balance(a) == moved_balance(pre.balance(a), a, owner, recipient, amount)
        &&& self.allowance_of(owner, spender) == pre.allowance_of(owner, spender) - amount
        &&& forall|o: AccountId, s: AccountId|
            !(o == owner && s == spender) ==> #[trigger] self.allowance_of(o, s)
                == pre.allowance_of(o, s)
    }
}

impl Ledger {
    /// A ledger over an existing store, as a host hands it over between
    /// calls: the metadata, and the balances and allowances that `storage` holds.
    pub fn from_parts(name: String, symbol: String, total_supply: U256, storage: Storage) -> (r:
        Ledger)
        ensures
            r.token_name() == name@,
            r.token_symbol() == symbol@,
            r.token_decimals() == DECIMALS,
            r.supply() == total_supply.value(),
            forall|a: AccountId| #[trigger]
                r.balance(a) == storage.read(StorageKey::Balance(a)).value(),
            forall|o: AccountId, s: AccountId| #[trigger]
                r.allowance_of(o, s) == storage.read(StorageKey::Allowance(o, s)).value(),
            r.total_balance() == storage.balance_total(),
    {
        Ledger { name, symbol, decimals: DECIMALS, total_supply, storage }
    }

    /// The store that holds the balances and allowances.
    pub fn storage(&self) -> (r: &Storage)
        ensures
            forall|a: AccountId| #[trigger]
                self.balance(a) == r.read(StorageKey::Balance(a)).value(),
            forall|o: AccountId, s: AccountId| #[trigger]
                self.allowance_of(o, s) == r.read(StorageKey::Allowance(o, s)).value(),
            self.total_balance() == r.balance_total(),
    {
        &self.storage
    }
}

/// No balance reaches 2^256.
pub proof fn lemma_balance_bounded(ledger: Ledger, account: AccountId)
    ensures
        ledger.balance(account) < amount_bound(),
{
    lemma_value_bounds(ledger.storage.read(StorageKey::Balance(account)));
}

/// Sets up a ledger: the metadata, and the whole supply in `caller`'s balance.
pub fn call(
    token_name: String,
    token_symbol: String,
    token_total_supply: U256,
    caller: AccountId,
) -> (r: Ledger)
    ensures
        r.is_initialized_with(token_name@, token_symbol@, token_total_supply.value(), caller),
{
    let mut storage = Storage::new();
    storage.set(balance_key(&caller), token_total_supply);
    Ledger {
        name: token_name,
        symbol: token_symbol,
        decimals: DECIMALS,
        total_supply: token_total_supply,
        storage,
    }
}

pub fn name(ledger: &Ledger) -> (r: String)
    ensures
        r@ == ledger.token_name(),
{
    ledger.name.clone()
}

pub fn symbol(ledger: &Ledger) -> (r: String)
    ensures
        r@ == ledger.token_symbol(),
{
    ledger.symbol.clone()
}

pub fn decimals(ledger: &Ledger) -> (r: u8)
    ensures
        r == ledger.token_decimals(),
{
    ledger.decimals
}

#[allow(non_snake_case)]
pub fn totalSupply(ledger: &Ledger) -> (r: U256)
    ensures
        r.value() == ledger.supply(),
{
    ledger.total_supply
}

pub fn balance_of(ledger: &Ledger, account: &AccountId) -> (r: U256)
    ensures
        r.value() == ledger.balance(*account),
{
    ledger.storage.get(&balance_key(account))
}

pub fn allowance(ledger: &Ledger, owner: &AccountId, spender: &AccountId) -> (r: U256)
    ensures
        r.value() == ledger.allowance_of(*owner, *spender),
{
    ledger.storage.get(&allowance_key(owner, spender))
}

/// Reads and checks a move of `amount` from `sender` to `recipient`, writing
/// nothing: the sender's balance after the debit, and the recipient's after
/// the credit.
fn plan_transfer(ledger: &Ledger, sender: &AccountId, recipient: &AccountId, amount: U256) -> (r:
    Result<(U256, U256), LedgerError>)
    ensures
        r is Err <==> ledger.transfer_failure(*sender, *recipient, amount.value()) is Some,
        r matches Err(e) ==> ledger.transfer_failure(*sender, *recipient, amount.value()) == Some(
            e),
        r matches Ok((debited, credited)) ==> debited.value() == ledger.balance(*sender)
            - amount.value() && credited.value() == (if *sender == *recipient {
            ledger.balance(*sender)
        } else {
            ledger.balance(*recipient) + amount.value()
        }),
{
    let sender_balance = ledger.storage.get(&balance_key(sender));
    let debited = match sender_balance.checked_sub(amount) {
        Some(v) => v,
        None => {
            return Err(LedgerError::Underflow);
        },
    };
    let recipient_balance = if sender.same_as(recipient) {
        debited
    } else {
        ledger.storage.get(&balance_key(recipient))
    };
    match recipient_balance.checked_add(amount) {
        Some(credited) => Ok((debited, credited)),
        None => Err(LedgerError::Overflow),
    }
}

/// Writes a move that `plan_transfer` accepted.
fn commit_transfer(
    ledger: &mut Ledger,
    sender: &AccountId,
    recipient: &AccountId,
    amount: U256,
    debited: U256,
    credited: U256,
)
    requires
        old(ledger).transfer_failure(*sender, *recipient, amount.value()) is None,
        debited.value() == old(ledger).balance(*sender) - amount.value(),
        credited.value() == (if *sender == *recipient {
            old(ledger).balance(*sender)
        } else {
            old(ledger).balance(*recipient) + amount.value()
        }),
    ensures
        final(ledger).is_transfer_of(*old(ledger), *sender, *recipient, amount.value()),
{
    ledger.storage.set(balance_key(sender), debited);
    ledger.storage.set(balance_key(recipient), credited);
}

/// Moves `amount` from the caller's balance to `recipient`'s. Refused, with
/// nothing changed, where the caller holds less than `amount` or the
/// recipient's balance would leave the 256-bit range.
pub fn transfer(ledger: &mut Ledger, caller: AccountId, recipient: AccountId, amount: U256) -> (r:
    Result<(), LedgerError>)
    ensures
        r == outcome(old(ledger).transfer_failure(caller, recipient, amount.value())),
        r is Err ==> *final(ledger) == *old(ledger),
        r is Ok ==> final(ledger).is_transfer_of(*old(ledger), caller, recipient, amount.value()),
{
    match plan_transfer(ledger, &caller, &recipient, amount) {
        Ok((debited, credited)) => {
            commit_transfer(ledger, &caller, &recipient, amount, debited, credited);
            Ok(())
        },
        Err(e) => Err(e),
    }
}

/// Sets what `spender` may move out of the caller's balance to `amount`,
/// whatever it was before.
pub fn approve(ledger: &mut Ledger, caller: AccountId, spender: AccountId, amount: U256)
    ensures
        final(ledger).is_approve_of(*old(ledger), caller, spender, amount.value()),
{
    ledger.storage.set(allowance_key(&caller, &spender), amount);
}

/// The caller, as spender, moves `amount` out of `owner`'s balance to
/// `recipient`'s, and its allowance from `owner` drops by `amount`. Refused,
/// with nothing changed, where the transfer would be, or where `amount`
/// exceeds that allowance.
#[allow(non_snake_case)]
pub fn transferFrom(
    ledger: &mut Ledger,
    caller: AccountId,
    owner: AccountId,
    recipient: AccountId,
    amount: U256,
) -> (r: Result<(), LedgerError>)
    ensures
        r == outcome(old(ledger).transfer_from_failure(caller, owner, recipient, amount.value())),
        r is Err ==> *final(ledger) == *old(ledger),
        r is Ok ==> final(ledger).is_transfer_from_of(
            *old(ledger),
            caller,
            owner,
            recipient,
            amount.value(),
        ),
{
    let key = allowance_key(&owner, &caller);
    let allowed = ledger.storage.get(&key);
    let (debited, credited) = match plan_transfer(ledger, &owner, &recipient, amount) {
        Ok(planned) => planned,
        Err(e) => {
            return Err(e);
        },
    };
    let remaining = match allowed.checked_sub(amount) {
        Some(v) => v,
        None => {
            return Err(LedgerError::Underflow);
        },
    };
    let ghost pre = *ledger;
    commit_transfer(ledger, &owner, &recipient, amount, debited, credited);
    let ghost mid = *ledger;
    assert(mid.allowance_of(owner, caller) == pre.allowance_of(owner, caller));
    ledger.storage.set(key, remaining);
    assert forall|a: AccountId| #[trigger] ledger.balance(a) == mid.balance(a) by {
        assert(StorageKey::Balance(a) != key);
    }
    assert forall|o: AccountId, s: AccountId|
        !(o == owner && s == caller) implies #[trigger] ledger.allowance_of(o, s)
        == pre.allowance_of(o, s) by {
        assert(StorageKey::Allowance(o, s) != key);
        assert(mid.allowance_of(o, s) == pre.allowance_of(o, s));
    }
    Ok(())
}

} // verus!
