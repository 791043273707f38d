use erc20_ledger::account::AccountId;
use erc20_ledger::amount::U256;
use erc20_ledger::key::{allowance_key, balance_key, StorageKey};
use erc20_ledger::ledger::{
    allowance, approve, balance_of, call, decimals, name, symbol, totalSupply, transfer,
    transferFrom, Ledger, LedgerError,
};
use erc20_ledger::store::Storage;

fn account(tag: u8) -> AccountId {
    let mut hash = [0u8; 32];
    hash[0] = tag;
    hash[31] = tag.wrapping_mul(7);
    AccountId::new(hash)
}

fn amt(v: u128) -> U256 {
    U256::from_u128(v)
}

fn max_amount() -> U256 {
    U256::from_limbs(u128::MAX, u128::MAX)
}

fn token(supply: U256, owner: AccountId) -> Ledger {
    call(String::from("Token"), String::from("TKN"), supply, owner)
}

fn sum_of(ledger: &Ledger, accounts: &[AccountId]) -> u128 {
    accounts.iter().map(|a| balance_of(ledger, a).lo).sum()
}

#[test]
fn initialization_sets_metadata_and_supply() {
    let a = account(1);
    let ledger = token(amt(1000), a);
    assert_eq!(name(&ledger), "Token");
    assert_eq!(symbol(&ledger), "TKN");
    assert_eq!(decimals(&ledger), 18);
    assert_eq!(totalSupply(&ledger), amt(1000));
    assert_eq!(balance_of(&ledger, &a), amt(1000));
    assert_eq!(balance_of(&ledger, &account(2)), amt(0));
    assert_eq!(allowance(&ledger, &a, &account(2)), amt(0));
}

#[test]
fn end_to_end_scenario() {
    let (a, b, c, d) = (account(1), account(2), account(3), account(4));
    let mut ledger = token(amt(1000), a);
    assert_eq!(transfer(&mut ledger, a, b, amt(300)), Ok(()));
    assert_eq!(balance_of(&ledger, &a), amt(700));
    assert_eq!(balance_of(&ledger, &b), amt(300));
    approve(&mut ledger, a, c, amt(100));
    assert_eq!(transferFrom(&mut ledger, c, a, d, amt(60)), Ok(()));
    assert_eq!(balance_of(&ledger, &a), amt(640));
    assert_eq!(balance_of(&ledger, &d), amt(60));
    assert_eq!(allowance(&ledger, &a, &c), amt(40));
    assert_eq!(transferFrom(&mut ledger, c, a, d, amt(50)), Err(LedgerError::Underflow));
    assert_eq!(balance_of(&ledger, &a), amt(640));
    assert_eq!(balance_of(&ledger, &b), amt(300));
    assert_eq!(balance_of(&ledger, &d), amt(60));
    assert_eq!(allowance(&ledger, &a, &c), amt(40));
    assert_eq!(sum_of(&ledger, &[a, b, c, d]), 1000);
}

#[test]
fn conservation_over_a_run() {
    let accounts = [account(1), account(2), account(3), account(4)];
    let mut ledger = token(amt(5000), accounts[0]);
    assert_eq!(transfer(&mut ledger, accounts[0], accounts[1], amt(1200)), Ok(()));
    assert_eq!(transfer(&mut ledger, accounts[1], accounts[2], amt(200)), Ok(()));
    approve(&mut ledger, accounts[0], accounts[3], amt(900));
    assert_eq!(transferFrom(&mut ledger, accounts[3], accounts[0], accounts[3], amt(850)), Ok(()));
    assert_eq!(transfer(&mut ledger, accounts[2], accounts[2], amt(200)), Ok(()));
    assert_eq!(transfer(&mut ledger, accounts[2], accounts[0], amt(201)), Err(LedgerError::Underflow));
    assert_eq!(sum_of(&ledger, &accounts), 5000);
    assert_eq!(totalSupply(&ledger), amt(5000));
}

#[test]
fn overdraft_is_refused_without_change() {
    let (a, b) = (account(1), account(2));
    let mut ledger = token(amt(1000), a);
    assert_eq!(transfer(&mut ledger, a, b, amt(1001)), Err(LedgerError::Underflow));
    assert_eq!(balance_of(&ledger, &a), amt(1000));
    assert_eq!(balance_of(&ledger, &b), amt(0));
    assert_eq!(transfer(&mut ledger, b, a, amt(1)), Err(LedgerError::Underflow));
    assert_eq!(balance_of(&ledger, &b), amt(0));
}

#[test]
fn credit_overflow_is_refused_without_change() {
    let (a, b) = (account(1), account(2));
    let mut store = Storage::new();
    store.set(balance_key(&a), max_amount());
    store.set(balance_key(&b), amt(3));
    store.set(allowance_key(&b, &a), amt(3));
    let mut ledger = Ledger::from_parts(String::from("T"), String::from("T"), max_amount(), store);
    assert_eq!(transfer(&mut ledger, b, a, amt(1)), Err(LedgerError::Overflow));
    assert_eq!(transferFrom(&mut ledger, a, b, a, amt(2)), Err(LedgerError::Overflow));
    assert_eq!(balance_of(&ledger, &a), max_amount());
    assert_eq!(balance_of(&ledger, &b), amt(3));
    assert_eq!(allowance(&ledger, &b, &a), amt(3));
    // Sending the largest balance to oneself cannot overflow.
    assert_eq!(transfer(&mut ledger, a, a, max_amount()), Ok(()));
    assert_eq!(balance_of(&ledger, &a), max_amount());
    assert_eq!(ledger.storage().get(&balance_key(&b)), amt(3));
}

#[test]
fn approve_overwrites_previous_allowance() {
    let (o, s) = (account(1), account(2));
    let mut ledger = token(amt(1000), o);
    approve(&mut ledger, o, s, amt(100));
    approve(&mut ledger, o, s, amt(30));
    assert_eq!(allowance(&ledger, &o, &s), amt(30));
    assert_eq!(allowance(&ledger, &s, &o), amt(0));
}

#[test]
fn allowance_decrements_exactly() {
    let (o, s, r) = (account(1), account(2), account(3));
    let mut ledger = token(amt(1000), o);
    approve(&mut ledger, o, s, amt(50));
    assert_eq!(transferFrom(&mut ledger, s, o, r, amt(20)), Ok(()));
    assert_eq!(allowance(&ledger, &o, &s), amt(30));
    assert_eq!(balance_of(&ledger, &o), amt(980));
    assert_eq!(balance_of(&ledger, &r), amt(20));
    assert_eq!(transferFrom(&mut ledger, s, o, r, amt(31)), Err(LedgerError::Underflow));
    assert_eq!(allowance(&ledger, &o, &s), amt(30));
    assert_eq!(balance_of(&ledger, &o), amt(980));
    assert_eq!(balance_of(&ledger, &r), amt(20));
}

#[test]
fn transfer_from_checks_balance_before_allowance() {
    let (o, s, r) = (account(1), account(2), account(3));
    let mut ledger = token(amt(10), o);
    approve(&mut ledger, o, s, amt(100));
    assert_eq!(transferFrom(&mut ledger, s, o, r, amt(11)), Err(LedgerError::Underflow));
    assert_eq!(allowance(&ledger, &o, &s), amt(100));
    assert_eq!(balance_of(&ledger, &o), amt(10));
    // Without any allowance a delegated transfer is refused.
    assert_eq!(transferFrom(&mut ledger, r, o, r, amt(1)), Err(LedgerError::Underflow));
    assert_eq!(balance_of(&ledger, &r), amt(0));
}

#[test]
fn self_transfer_is_a_no_op() {
    let a = account(1);
    let mut ledger = token(amt(1000), a);
    assert_eq!(transfer(&mut ledger, a, a, amt(1000)), Ok(()));
    assert_eq!(balance_of(&ledger, &a), amt(1000));
    assert_eq!(transfer(&mut ledger, a, a, amt(400)), Ok(()));
    assert_eq!(balance_of(&ledger, &a), amt(1000));
    assert_eq!(transfer(&mut ledger, a, a, amt(1001)), Err(LedgerError::Underflow));
    assert_eq!(balance_of(&ledger, &a), amt(1000));
}

#[test]
fn zero_transfer_always_succeeds() {
    let (a, b, c) = (account(1), account(2), account(3));
    let mut ledger = token(amt(1000), a);
    assert_eq!(transfer(&mut ledger, b, c, amt(0)), Ok(()));
    assert_eq!(transfer(&mut ledger, a, b, amt(0)), Ok(()));
    assert_eq!(transferFrom(&mut ledger, c, a, b, amt(0)), Ok(()));
    assert_eq!(balance_of(&ledger, &a), amt(1000));
    assert_eq!(balance_of(&ledger, &b), amt(0));
    assert_eq!(balance_of(&ledger, &c), amt(0));
    assert_eq!(allowance(&ledger, &a, &c), amt(0));
}

#[test]
fn amounts_add_and_subtract_across_limbs() {
    let low_max = amt(u128::MAX);
    let sum = low_max.checked_add(amt(1)).unwrap();
    assert_eq!(sum, U256::from_limbs(1, 0));
    assert_eq!(sum.checked_sub(amt(1)), Some(low_max));
    assert_eq!(max_amount().checked_add(amt(1)), None);
    assert_eq!(amt(3).checked_sub(amt(4)), None);
    assert_eq!(U256::from_limbs(5, 7).checked_sub(U256::from_limbs(2, 9)), Some(U256::from_limbs(2, u128::MAX - 1)));
    assert_eq!(U256::from_limbs(5, 7).checked_add(U256::from_limbs(2, 9)), Some(U256::from_limbs(7, 16)));
    assert_eq!(U256::zero(), amt(0));
}

#[test]
fn storage_reads_default_and_overwrites() {
    let (a, b) = (account(1), account(2));
    let mut store = Storage::new();
    assert_eq!(store.get(&balance_key(&a)), amt(0));
    store.set(balance_key(&a), amt(9));
    store.set(allowance_key(&a, &b), amt(4));
    assert_eq!(store.get(&balance_key(&a)), amt(9));
    assert_eq!(store.get(&allowance_key(&a, &b)), amt(4));
    assert_eq!(store.get(&allowance_key(&b, &a)), amt(0));
    store.set(balance_key(&a), amt(2));
    assert_eq!(store.get(&balance_key(&a)), amt(2));
}

#[test]
fn keys_are_distinct() {
    let (a, b) = (account(1), account(2));
    assert!(balance_key(&a) != balance_key(&b));
    assert!(balance_key(&a) == StorageKey::Balance(a));
    assert!(allowance_key(&a, &b) != allowance_key(&b, &a));
    assert!(allowance_key(&a, &a) != balance_key(&a));
    assert!(a == account(1));
    assert!(a != b);
}
