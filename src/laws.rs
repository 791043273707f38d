use vstd::prelude::*;

use crate::account::AccountId;
use crate::ledger::{Ledger, LedgerError, lemma_balance_bounded, moved_balance};

verus! {

/// `post` follows from `pre` by one successful transfer or delegated transfer.
pub open spec fn is_move_step(post: Ledger, pre: Ledger) -> bool {
    ||| exists|sender: AccountId, recipient: AccountId, amount: nat| #[trigger]
        post.is_transfer_of(pre, sender, recipient, amount)
    ||| exists|spender: AccountId, owner: AccountId, recipient: AccountId, amount: nat| #[trigger]
        post.is_transfer_from_of(pre, spender, owner, recipient, amount)
}

/// One successful transfer or delegated transfer neither creates nor
/// destroys tokens, and leaves the total supply as it was.
pub proof fn lemma_move_conserves(post: Ledger, pre: Ledger)
    requires
        is_move_step(post, pre),
    ensures
        post.total_balance() == pre.total_balance(),
        post.supply() == pre.supply(),
{
    if exists|sender: AccountId, recipient: AccountId, amount: nat|
        #[trigger] post.is_transfer_of(pre, sender, recipient, amount) {
        let (sender, recipient, amount) = choose|
            sender: AccountId,
            recipient: AccountId,
            amount: nat,
        | #[trigger] post.is_transfer_of(pre, sender, recipient, amount);
        assert(post.is_transfer_of(pre, sender, recipient, amount));
    } else {
        let (spender, owner, recipient, amount) = choose|
            spender: AccountId,
            owner: AccountId,
            recipient: AccountId,
            amount: nat,
        | #[trigger] post.is_transfer_from_of(pre, spender, owner, recipient, amount);
        assert(post.is_transfer_from_of(pre, spender, owner, recipient, amount));
    }
}

/// Conservation: along any run that starts at initialization and goes on by
/// successful transfers and delegated transfers, the balances always sum to
/// the initial total supply.
pub proof fn lemma_conservation(
    states: Seq<Ledger>,
    token_name: Seq<char>,
    token_symbol: Seq<char>,
    supply: nat,
    deployer: AccountId,
)
    requires
        states.len() > 0,
        states[0].is_initialized_with(token_name, token_symbol, supply, deployer),
        forall|i: int| 0 <= i < states.len() - 1 ==> is_move_step(#[trigger] states[i + 1], states[i]),
    ensures
        forall|i: int|
            #![trigger states[i]]
            0 <= i < states.len() ==> states[i].total_balance() == supply && states[i].supply()
                == supply,
{
    assert forall|i: int| #![trigger states[i]]
        0 <= i < states.len() implies states[i].total_balance() == supply
            && states[i].supply() == supply by {
        lemma_conservation_upto(states, supply, i);
    }
}

proof fn lemma_conservation_upto(states: Seq<Ledger>, supply: nat, i: int)
    requires
        0 <= i < states.len(),
        states[0].total_balance() == supply,
        states[0].supply() == supply,
        forall|j: int| 0 <= j < states.len() - 1 ==> is_move_step(#[trigger] states[j + 1], states[j]),
    ensures
        states[i].total_balance() == supply,
        states[i].supply() == supply,
    decreases i,
{
    if i > 0 {
        lemma_conservation_upto(states, supply, i - 1);
        assert(is_move_step(states[(i - 1) + 1], states[i - 1]));
        lemma_move_conserves(states[i], states[i - 1]);
    }
}

/// Approving twice keeps the second amount only: an allowance is set, never added to.
pub proof fn lemma_approve_overwrites(
    first_state: Ledger,
    second_state: Ledger,
    third_state: Ledger,
    owner: AccountId,
    spender: AccountId,
    first: nat,
    second: nat,
)
    requires
        second_state.is_approve_of(first_state, owner, spender, first),
        third_state.is_approve_of(second_state, owner, spender, second),
    ensures
        third_state.allowance_of(owner, spender) == second,
{
}

/// A delegated transfer lowers the spender's allowance by exactly the amount
/// moved; a later one asking for more than what is left is refused.
pub proof fn lemma_allowance_spent_exactly(
    pre: Ledger,
    post: Ledger,
    spender: AccountId,
    owner: AccountId,
    recipient: AccountId,
    amount: nat,
    next_recipient: AccountId,
    next_amount: nat,
)
    requires
        post.is_transfer_from_of(pre, spender, owner, recipient, amount),
        next_amount > pre.allowance_of(owner, spender) - amount,
    ensures
        post.allowance_of(owner, spender) == pre.allowance_of(owner, spender) - amount,
        post.transfer_from_failure(spender, owner, next_recipient, next_amount) is Some,
{
}

/// A transfer to oneself changes no balance when it is covered, and is
/// refused when it is not.
pub proof fn lemma_self_transfer(pre: Ledger, post: Ledger, account: AccountId, amount: nat)
    ensures
        amount <= pre.balance(account) <==> pre.transfer_failure(account, account, amount) is None,
        amount > pre.balance(account) ==> pre.transfer_failure(account, account, amount) == Some(
            LedgerError::Underflow,
        ),
        post.is_transfer_of(pre, account, account, amount) ==> post.same_state(pre),
{
    if post.is_transfer_of(pre, account, account, amount) {
        assert forall|a: AccountId| #[trigger] post.balance(a) == pre.balance(a) by {
            assert(post.balance(a) == moved_balance(pre.balance(a), a, account, account, amount));
        }
    }
}

/// A transfer of nothing is never refused and changes nothing.
pub proof fn lemma_zero_transfer(pre: Ledger, post: Ledger, sender: AccountId, recipient: AccountId)
    ensures
        pre.transfer_failure(sender, recipient, 0) is None,
        post.is_transfer_of(pre, sender, recipient, 0) ==> post.same_state(pre),
{
    lemma_balance_bounded(pre, recipient);
    if post.is_transfer_of(pre, sender, recipient, 0) {
        assert forall|a: AccountId| #[trigger] post.balance(a) == pre.balance(a) by {
            assert(post.balance(a) == moved_balance(pre.balance(a), a, sender, recipient, 0));
        }
    }
}

} // verus!
