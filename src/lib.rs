//! A fungible-token ledger: per-account balances and per-(owner, spender)
//! allowances over a keyed store, moved by checked transfers, allowance grants
//! and delegated transfers. Every refused operation leaves the ledger as it was.

pub mod account;
pub mod amount;
pub mod key;
pub mod laws;
pub mod ledger;
pub mod store;
