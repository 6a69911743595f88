//! The balance-invariant checker: reference executors that drive the engine
//! over the ledger model and carry its laws across whole runs — a retried
//! attempt sequence, and a serially-applied batch standing for the order in
//! which the store's row locks admitted concurrent callers.

use vstd::prelude::*;

use crate::engine::{
    admissible_on, refusal_on, should_retry, step_accounts, surface_error,
    transfer_accounts_exist, transfer_args_valid, transfer_committed, transfer_fits, RetryPolicy,
};
use crate::error::LedgerError;
use crate::ledger::{
    balance_of, has_account, lemma_lookup_account_index, lemma_net_delta_push, net_delta,
    sum_balances, transfer_delta, Ledger,
};
use crate::laws::lemma_committed_moves_exact_amounts;
use crate::models::{Account, TransferTxParams, TransferTxResult};

verus! {

/// The number of leading `true`s: the first attempt that is not aborted by
/// an injected conflict.
pub open spec fn first_clear(s: Seq<bool>) -> int
    decreases s.len(),
{
    if s.len() == 0 {
        0
    } else if !s[0] {
        0
    } else {
        1 + first_clear(s.drop_first())
    }
}

/// The first clear attempt is never negative.
proof fn lemma_first_clear_nonneg(s: Seq<bool>)
    ensures
        first_clear(s) >= 0,
    decreases s.len(),
{
    if s.len() > 0 && s[0] {
        lemma_first_clear_nonneg(s.drop_first());
    }
}

/// When every attempt before `k` conflicts and attempt `k` does not (or the
/// conflict schedule has run out), the first clear attempt is `k`.
proof fn lemma_first_clear_at(s: Seq<bool>, k: int)
    requires
        0 <= k <= s.len(),
        forall|j: int| 0 <= j < k ==> s[j],
        k == s.len() || !s[k],
    ensures
        first_clear(s) == k,
    decreases k,
{
    if k == 0 {
    } else {
        assert(s[0]);
        assert forall|j: int| 0 <= j < k - 1 implies s.drop_first()[j] by {
            assert(s.drop_first()[j] == s[j + 1]);
        }
        if k - 1 < s.drop_first().len() {
            assert(s.drop_first()[k - 1] == s[k]);
        }
        lemma_first_clear_at(s.drop_first(), k - 1);
    }
}

/// When every attempt before `k` conflicts, the first clear attempt is at
/// least `k`.
proof fn lemma_first_clear_ge(s: Seq<bool>, k: int)
    requires
        0 <= k <= s.len(),
        forall|j: int| 0 <= j < k ==> s[j],
    ensures
        first_clear(s) >= k,
    decreases k,
{
    if k == 0 {
        lemma_first_clear_nonneg(s);
    } else {
        assert(s[0]);
        assert forall|j: int| 0 <= j < k - 1 implies s.drop_first()[j] by {
            assert(s.drop_first()[j] == s[j + 1]);
        }
        lemma_first_clear_ge(s.drop_first(), k - 1);
        assert(first_clear(s) == 1 + first_clear(s.drop_first()));
    }
}

/// One transfer call as the caller sees it: the attempt loop around the
/// atomic unit of work. `conflicts[i]` injects a store-detected
/// serialization abort into attempt `i`, standing for a conflicting
/// concurrent transfer; an aborted attempt is rolled back whole and leaves
/// no trace. However many attempts the conflicts force, a successful call
/// commits the transfer's effect exactly once — never a duplicate
/// transfer or entry pair — and a failed call leaves the ledger exactly as
/// it was. Once the bound is exhausted the retryable cause surfaces as
/// `TransferFailed`.
pub fn transfer_with_retries(
    ledger: &mut Ledger,
    arg: TransferTxParams,
    conflicts: &Vec<bool>,
    policy: &RetryPolicy,
) -> (r: Result<TransferTxResult, LedgerError>)
    requires
        old(ledger).wf(),
        old(ledger).next_transfer_id < i64::MAX,
        old(ledger).next_entry_id < i64::MAX - 1,
    ensures
        final(ledger).wf(),
        r is Err ==> *final(ledger) == *old(ledger),
        r matches Ok(res) ==> transfer_committed(*old(ledger), *final(ledger), arg, res),
        first_clear(conflicts@) > policy.max_retries ==> r == Err::<TransferTxResult, LedgerError>(
            LedgerError::TransferFailed,
        ),
        first_clear(conflicts@) <= policy.max_retries ==> {
            &&& !transfer_args_valid(arg) ==> r == Err::<TransferTxResult, LedgerError>(
                LedgerError::InvalidArgument,
            )
            &&& transfer_args_valid(arg) && !transfer_accounts_exist(*old(ledger), arg) ==> r
                == Err::<TransferTxResult, LedgerError>(LedgerError::NotFound)
            &&& transfer_args_valid(arg) && transfer_accounts_exist(*old(ledger), arg)
                && !transfer_fits(*old(ledger), arg) ==> r == Err::<TransferTxResult, LedgerError>(
                LedgerError::ConstraintViolation,
            )
            &&& transfer_args_valid(arg) && transfer_accounts_exist(*old(ledger), arg)
                && transfer_fits(*old(ledger), arg) ==> r is Ok
        },
        sum_balances(final(ledger).accounts@) == sum_balances(old(ledger).accounts@),
        old(ledger).entry_balanced() ==> final(ledger).entry_balanced(),
{
    let mut attempt: u32 = 0;
    loop
        invariant
            ledger.wf(),
            *ledger == *old(ledger),
            ledger.next_transfer_id < i64::MAX,
            ledger.next_entry_id < i64::MAX - 1,
            attempt <= policy.max_retries,
            attempt as int <= conflicts@.len(),
            forall|j: int| 0 <= j < attempt ==> conflicts@[j],
        decreases policy.max_retries - attempt,
    {
        if (attempt as usize) < conflicts.len() && conflicts[attempt as usize] {
            // This attempt hits a store-detected conflict after its writes;
            // the store rolls the whole attempt back, leaving no trace.
            let cause = LedgerError::SerializationFailure;
            if should_retry(&cause, attempt, policy) {
                attempt = attempt + 1;
            } else {
                proof {
                    lemma_first_clear_ge(conflicts@, attempt + 1);
                }
                return Err(surface_error(cause));
            }
        } else {
            proof {
                lemma_first_clear_at(conflicts@, attempt as int);
            }
            return ledger.transfer_tx(arg);
        }
    }
}

/// The account table after the first `n` requests of a serial run: each
/// request in turn applies its two deltas when it is admissible at the
/// state it meets, and leaves the table alone when it is refused.
pub open spec fn run_accounts(s: Seq<Account>, args: Seq<TransferTxParams>, n: int) -> Seq<
    Account,
>
    decreases n,
{
    if n <= 0 {
        s
    } else {
        step_accounts(run_accounts(s, args, n - 1), args[n - 1])
    }
}

/// What the i-th request of a serial run starting from `s` returns: when it
/// is admissible at the state it meets, a commit whose rows and snapshot
/// balances are fixed by that state; otherwise the refusal's exact error
/// kind.
pub open spec fn serial_outcome(
    s: Seq<Account>,
    args: Seq<TransferTxParams>,
    results: Seq<Result<TransferTxResult, LedgerError>>,
    i: int,
) -> bool {
    let prev = run_accounts(s, args, i);
    let arg = args[i];
    if admissible_on(prev, arg) {
        &&& results[i] is Ok
        &&& {
            let res = results[i]->Ok_0;
            &&& res.transfer.from_account_id == arg.from_account_id
            &&& res.transfer.to_account_id == arg.to_account_id
            &&& res.transfer.amount == arg.amount
            &&& res.from_entry.account_id == arg.from_account_id
            &&& res.from_entry.amount == -(arg.amount as int)
            &&& res.to_entry.account_id == arg.to_account_id
            &&& res.to_entry.amount == arg.amount
            &&& res.from_account.id == arg.from_account_id
            &&& res.from_account.balance == balance_of(prev, arg.from_account_id) - arg.amount
            &&& res.to_account.id == arg.to_account_id
            &&& res.to_account.balance == balance_of(prev, arg.to_account_id) + arg.amount
        }
    } else {
        results[i] == Err::<TransferTxResult, LedgerError>(refusal_on(prev, arg))
    }
}

/// Applies a batch of transfer requests one after another — the serial
/// order in which the store's locks admitted them — reporting each outcome.
/// The contract fixes the whole run: the final account table is the serial
/// fold of the requests, and each request's result is pinned by the state
/// it met — committed exactly when admissible there, refused with the exact
/// error kind otherwise. Whatever mix results, the total of all balances is
/// conserved, entry-balance consistency is preserved, the account set is
/// untouched, and every account's final balance is its initial balance plus
/// the net delta of exactly the transfers the batch committed.
pub fn apply_transfers(ledger: &mut Ledger, args: &Vec<TransferTxParams>) -> (results: Vec<
    Result<TransferTxResult, LedgerError>,
>)
    requires
        old(ledger).wf(),
        old(ledger).next_transfer_id + args@.len() <= i64::MAX,
        old(ledger).next_entry_id + 2 * args@.len() <= i64::MAX,
    ensures
        final(ledger).wf(),
        results@.len() == args@.len(),
        sum_balances(final(ledger).accounts@) == sum_balances(old(ledger).accounts@),
        old(ledger).entry_balanced() ==> final(ledger).entry_balanced(),
        forall|q: i64| has_account(final(ledger).accounts@, q) == has_account(old(ledger).accounts@, q),
        final(ledger).transfers@.len() >= old(ledger).transfers@.len(),
        forall|q: i64|
            balance_of(final(ledger).accounts@, q) == balance_of(old(ledger).accounts@, q)
                + net_delta(
                final(ledger).transfers@.skip(old(ledger).transfers@.len() as int),
                q,
            ),
        final(ledger).accounts@ == run_accounts(
            old(ledger).accounts@,
            args@,
            args@.len() as int,
        ),
        forall|i: int|
            0 <= i < args@.len() ==> serial_outcome(old(ledger).accounts@, args@, results@, i),
{
    let ghost base = *ledger;
    let ghost base_len = base.transfers@.len() as int;
    let mut results: Vec<Result<TransferTxResult, LedgerError>> = Vec::new();
    let mut i: usize = 0;
    while i < args.len()
        invariant
            ledger.wf(),
            i <= args@.len(),
            results@.len() == i,
            base_len == base.transfers@.len(),
            ledger.next_transfer_id <= base.next_transfer_id + i,
            ledger.next_entry_id <= base.next_entry_id + 2 * i,
            base.next_transfer_id + args@.len() <= i64::MAX,
            base.next_entry_id + 2 * args@.len() <= i64::MAX,
            sum_balances(ledger.accounts@) == sum_balances(base.accounts@),
            base.entry_balanced() ==> ledger.entry_balanced(),
            forall|q: i64| has_account(ledger.accounts@, q) == has_account(base.accounts@, q),
            ledger.transfers@.len() >= base_len,
            ledger.transfers@.take(base_len) =~= base.transfers@,
            forall|q: i64|
                balance_of(ledger.accounts@, q) == balance_of(base.accounts@, q) + net_delta(
                    ledger.transfers@.skip(base_len),
                    q,
                ),
            ledger.accounts@ == run_accounts(base.accounts@, args@, i as int),
            forall|j: int| 0 <= j < i ==> serial_outcome(base.accounts@, args@, results@, j),
        decreases args@.len() - i,
    {
        let ghost cur = *ledger;
        let ghost prev_results = results@;
        let r = ledger.transfer_tx(args[i]);
        proof {
            if r is Ok {
                let res = r->Ok_0;
                let arg = args@[i as int];
                let t = crate::engine::committed_transfer(cur, arg);
                lemma_committed_moves_exact_amounts(cur, *ledger, arg, res);
                assert(ledger.transfers@ == cur.transfers@.push(t));
                assert(cur.transfers@.push(t).skip(base_len) =~= cur.transfers@.skip(
                    base_len,
                ).push(t));
                assert(cur.transfers@.push(t).take(base_len) =~= cur.transfers@.take(base_len));
                assert(ledger.transfers@.take(base_len) =~= base.transfers@);
                assert forall|q: i64|
                    balance_of(ledger.accounts@, q) == balance_of(base.accounts@, q) + net_delta(
                        ledger.transfers@.skip(base_len),
                        q,
                    ) by {
                    lemma_net_delta_push(cur.transfers@.skip(base_len), t, q);
                    assert(transfer_delta(t, q) == (if q == arg.to_account_id {
                        arg.amount as int
                    } else {
                        0
                    }) - (if q == arg.from_account_id {
                        arg.amount as int
                    } else {
                        0
                    }));
                }
            }
        }
        proof {
            let argg = args@[i as int];
            assert(run_accounts(base.accounts@, args@, i as int + 1) == step_accounts(
                run_accounts(base.accounts@, args@, i as int),
                argg,
            ));
            if r is Ok {
                assert(admissible_on(cur.accounts@, argg));
                assert(ledger.accounts@ == step_accounts(cur.accounts@, argg));
                lemma_lookup_account_index(ledger.accounts@, argg.from_account_id);
                lemma_lookup_account_index(ledger.accounts@, argg.to_account_id);
            } else {
                assert(!admissible_on(cur.accounts@, argg));
                assert(ledger.accounts@ == step_accounts(cur.accounts@, argg));
            }
        }
        results.push(r);
        proof {
            assert forall|j: int|
                0 <= j < i + 1 implies serial_outcome(base.accounts@, args@, results@, j) by {
                if j < i {
                    assert(results@[j] == prev_results[j]);
                    assert(serial_outcome(base.accounts@, args@, prev_results, j));
                } else {
                    let argg = args@[i as int];
                    assert(results@[j] == r);
                    assert(run_accounts(base.accounts@, args@, j) == cur.accounts@);
                    if r is Ok {
                        let res = r->Ok_0;
                        assert(balance_of(ledger.accounts@, argg.from_account_id) == balance_of(
                            cur.accounts@,
                            argg.from_account_id,
                        ) - argg.amount);
                        assert(balance_of(ledger.accounts@, argg.to_account_id) == balance_of(
                            cur.accounts@,
                            argg.to_account_id,
                        ) + argg.amount);
                        assert(res.from_account.balance == balance_of(
                            ledger.accounts@,
                            argg.from_account_id,
                        ));
                        assert(res.to_account.balance == balance_of(
                            ledger.accounts@,
                            argg.to_account_id,
                        ));
                    } else {
                        assert(results@[j] == Err::<TransferTxResult, LedgerError>(
                            refusal_on(cur.accounts@, argg),
                        ));
                    }
                }
            }
        }
        i = i + 1;
    }
    results
}

} // verus!
