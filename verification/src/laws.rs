//! The laws the transfer engine upholds, each stated over the committed
//! transition relation `transfer_committed` and proved once for every
//! ledger, request, and result.

use vstd::prelude::*;

use crate::engine::{spec_lock_order, transfer_committed};
use crate::ledger::{
    accounts_ascending, apply_delta, balance_of, has_account, lemma_apply_delta_pointwise,
    lemma_lookup_account_at, lemma_lookup_apply_delta, lemma_sum_apply_delta,
    lemma_sum_entries_push, lookup_account, sum_balances, sum_entries_for, Ledger,
};
use crate::models::{TransferTxParams, TransferTxResult};

verus! {

/// Conservation: a committed transfer moves an amount, it never creates or
/// destroys one — the sum of all balances after the commit equals the sum
/// before it.
pub proof fn lemma_committed_conserves_total(
    pre: Ledger,
    post: Ledger,
    arg: TransferTxParams,
    res: TransferTxResult,
)
    requires
        pre.wf(),
        transfer_committed(pre, post, arg, res),
    ensures
        sum_balances(post.accounts@) == sum_balances(pre.accounts@),
{
    let a = arg.amount as int;
    let s0 = pre.accounts@;
    let s1 = apply_delta(s0, arg.from_account_id, -a);
    lemma_sum_apply_delta(s0, arg.from_account_id, -a);
    lemma_apply_delta_pointwise(s0, arg.from_account_id, -a);
    assert(accounts_ascending(s1));
    assert forall|q: i64| has_account(s1, q) == has_account(s0, q) by {
        lemma_lookup_apply_delta(s0, arg.from_account_id, -a, q);
    }
    assert(balance_of(s1, arg.to_account_id) == balance_of(s0, arg.to_account_id)) by {
        lemma_lookup_apply_delta(s0, arg.from_account_id, -a, arg.to_account_id);
    }
    lemma_sum_apply_delta(s1, arg.to_account_id, a);
}

/// Exact movement: a committed transfer changes the source balance by
/// `-amount`, the destination balance by `+amount`, and no other balance at
/// all — the per-account form of "no lost update" once the store has
/// serialized the commits.
pub proof fn lemma_committed_moves_exact_amounts(
    pre: Ledger,
    post: Ledger,
    arg: TransferTxParams,
    res: TransferTxResult,
)
    requires
        pre.wf(),
        transfer_committed(pre, post, arg, res),
    ensures
        forall|q: i64|
            balance_of(post.accounts@, q) == balance_of(pre.accounts@, q) + (if q
                == arg.to_account_id {
                arg.amount as int
            } else {
                0
            }) - (if q == arg.from_account_id {
                arg.amount as int
            } else {
                0
            }),
        forall|q: i64| has_account(post.accounts@, q) == has_account(pre.accounts@, q),
{
    let a = arg.amount as int;
    let s0 = pre.accounts@;
    let s1 = apply_delta(s0, arg.from_account_id, -a);
    assert forall|q: i64|
        balance_of(post.accounts@, q) == balance_of(s0, q) + (if q == arg.to_account_id {
            a
        } else {
            0
        }) - (if q == arg.from_account_id {
            a
        } else {
            0
        }) by {
        lemma_lookup_apply_delta(s0, arg.from_account_id, -a, q);
        lemma_lookup_apply_delta(s1, arg.to_account_id, a, q);
    }
    assert forall|q: i64|
        has_account(post.accounts@, q) == has_account(s0, q) by {
        lemma_lookup_apply_delta(s0, arg.from_account_id, -a, q);
        lemma_lookup_apply_delta(s1, arg.to_account_id, a, q);
    }
}

/// Entry-balance consistency: when every account's balance equals the sum of
/// its entries before a committed transfer, the same holds after it — the
/// debit entry accounts for the source's change and the credit entry for the
/// destination's.
pub proof fn lemma_committed_keeps_entry_balance(
    pre: Ledger,
    post: Ledger,
    arg: TransferTxParams,
    res: TransferTxResult,
)
    requires
        pre.wf(),
        pre.entry_balanced(),
        transfer_committed(pre, post, arg, res),
    ensures
        post.entry_balanced(),
{
    let a = arg.amount as int;
    let s0 = pre.accounts@;
    let s1 = apply_delta(s0, arg.from_account_id, -a);
    lemma_apply_delta_pointwise(s0, arg.from_account_id, -a);
    lemma_apply_delta_pointwise(s1, arg.to_account_id, a);
    assert forall|i: int|
        0 <= i < post.accounts@.len() implies (#[trigger] post.accounts@[i]).balance
        == sum_entries_for(post.entries@, post.accounts@[i].id) by {
        let q = s0[i].id;
        assert(post.accounts@[i].id == q);
        lemma_sum_entries_push(pre.entries@, res.from_entry, q);
        lemma_sum_entries_push(pre.entries@.push(res.from_entry), res.to_entry, q);
        if q == arg.from_account_id {
            lemma_lookup_account_at(s0, q, i);
        }
        if q == arg.to_account_id {
            lemma_lookup_account_at(s0, q, i);
        }
    }
}

/// Deadlock freedom: whichever side of a pair a transfer starts from, the
/// canonical order makes both concurrent directions acquire the same lock
/// first — a total acquisition order on account ids, so a circular wait
/// between opposed transfers on one pair is impossible.
pub proof fn lemma_lock_order_deadlock_free(a: i64, b: i64)
    requires
        a != b,
    ensures
        spec_lock_order(a, b) == spec_lock_order(b, a),
        spec_lock_order(a, b).0 < spec_lock_order(a, b).1,
{
}

} // verus!
