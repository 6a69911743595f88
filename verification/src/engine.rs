//! The transfer engine: one cross-account money movement as a single atomic
//! unit of work.
//!
//! The engine validates its arguments before opening any transaction, then
//! inserts the transfer record and the two balancing entries, acquires the
//! two account locks in the canonical order — always the lower account id
//! first, never "source first" — applies the signed deltas, and commits. Any
//! failure rolls the whole unit back: on this model, no mutation happens
//! before every failure case has been ruled out, which is the same
//! all-or-nothing contract a store-side rollback provides.
//!
//! Whether balances may go negative was left open by the store schema; the
//! engine deliberately allows them (no floor check), so a transfer is never
//! refused for insufficient funds. Only a balance leaving the store's `i64`
//! range is refused, as `ConstraintViolation`.

use vstd::prelude::*;

use crate::error::{spec_retryable, LedgerError};
use crate::ledger::{
    apply_delta, balance_of, has_account, lookup_account, Ledger,
};
use crate::ledger::{
    lemma_apply_delta_commute, lemma_lookup_apply_delta,
};
use crate::models::{
    Account, AddAccountBalanceParams, CreateEntryParams, CreateTransferParams, Entry, Transfer,
    TransferTxParams, TransferTxResult,
};

verus! {

/// The fail-fast precondition on a transfer request: a positive amount
/// between two distinct accounts.
pub open spec fn transfer_args_valid(arg: TransferTxParams) -> bool {
    arg.amount > 0 && arg.from_account_id != arg.to_account_id
}

/// Both referenced accounts exist in the account table.
pub open spec fn accounts_exist_on(s: Seq<Account>, arg: TransferTxParams) -> bool {
    has_account(s, arg.from_account_id) && has_account(s, arg.to_account_id)
}

/// Both post-transfer balances stay inside the store's integer range.
pub open spec fn fits_on(s: Seq<Account>, arg: TransferTxParams) -> bool {
    &&& i64::MIN <= balance_of(s, arg.from_account_id) - arg.amount
    &&& balance_of(s, arg.to_account_id) + arg.amount <= i64::MAX
}

/// Both referenced accounts exist in the ledger.
pub open spec fn transfer_accounts_exist(l: Ledger, arg: TransferTxParams) -> bool {
    accounts_exist_on(l.accounts@, arg)
}

/// Both post-transfer balances stay inside the store's integer range.
pub open spec fn transfer_fits(l: Ledger, arg: TransferTxParams) -> bool {
    fits_on(l.accounts@, arg)
}

/// A request the engine commits against the given account table: valid
/// arguments, both accounts present, both new balances in range.
pub open spec fn admissible_on(s: Seq<Account>, arg: TransferTxParams) -> bool {
    transfer_args_valid(arg) && accounts_exist_on(s, arg) && fits_on(s, arg)
}

/// The error a refused request surfaces, decided in the order the engine
/// checks: arguments first, then existence, then range.
pub open spec fn refusal_on(s: Seq<Account>, arg: TransferTxParams) -> LedgerError {
    if !transfer_args_valid(arg) {
        LedgerError::InvalidArgument
    } else if !accounts_exist_on(s, arg) {
        LedgerError::NotFound
    } else {
        LedgerError::ConstraintViolation
    }
}

/// The account table after one request: the two signed deltas when the
/// request is admissible, unchanged when it is refused.
pub open spec fn step_accounts(s: Seq<Account>, arg: TransferTxParams) -> Seq<Account> {
    if admissible_on(s, arg) {
        apply_delta(
            apply_delta(s, arg.from_account_id, -(arg.amount as int)),
            arg.to_account_id,
            arg.amount as int,
        )
    } else {
        s
    }
}

/// The transfer record a commit against `pre` appends.
pub open spec fn committed_transfer(pre: Ledger, arg: TransferTxParams) -> Transfer {
    Transfer {
        id: pre.next_transfer_id,
        from_account_id: arg.from_account_id,
        to_account_id: arg.to_account_id,
        amount: arg.amount,
        created_at: pre.now,
    }
}

/// The debit entry a commit against `pre` appends: `-amount` on the source.
pub open spec fn committed_from_entry(pre: Ledger, arg: TransferTxParams) -> Entry {
    Entry {
        id: pre.next_entry_id,
        account_id: arg.from_account_id,
        amount: (-arg.amount) as i64,
        created_at: pre.now,
    }
}

/// The credit entry a commit against `pre` appends: `+amount` on the
/// destination.
pub open spec fn committed_to_entry(pre: Ledger, arg: TransferTxParams) -> Entry {
    Entry {
        id: (pre.next_entry_id + 1) as i64,
        account_id: arg.to_account_id,
        amount: arg.amount,
        created_at: pre.now,
    }
}

/// The complete effect of one committed transfer: exactly one transfer row,
/// exactly its two balancing entries, the two balance deltas, nothing else —
/// and a result snapshot consistent with the committed state.
pub open spec fn transfer_committed(
    pre: Ledger,
    post: Ledger,
    arg: TransferTxParams,
    res: TransferTxResult,
) -> bool {
    &&& transfer_args_valid(arg)
    &&& transfer_accounts_exist(pre, arg)
    &&& transfer_fits(pre, arg)
    &&& res.transfer == committed_transfer(pre, arg)
    &&& res.from_entry == committed_from_entry(pre, arg)
    &&& res.to_entry == committed_to_entry(pre, arg)
    &&& post.transfers@ == pre.transfers@.push(committed_transfer(pre, arg))
    &&& post.entries@ == pre.entries@.push(committed_from_entry(pre, arg)).push(
        committed_to_entry(pre, arg),
    )
    &&& post.accounts@ == apply_delta(
        apply_delta(pre.accounts@, arg.from_account_id, -(arg.amount as int)),
        arg.to_account_id,
        arg.amount as int,
    )
    &&& lookup_account(post.accounts@, arg.from_account_id) == Some(res.from_account)
    &&& lookup_account(post.accounts@, arg.to_account_id) == Some(res.to_account)
    &&& post.next_account_id == pre.next_account_id
    &&& post.next_entry_id == pre.next_entry_id + 2
    &&& post.next_transfer_id == pre.next_transfer_id + 1
    &&& post.now == pre.now
}

/// Canonical lock-acquisition order for a pair of distinct account ids:
/// always the lower id first, independent of which side is the source.
pub open spec fn spec_lock_order(a: i64, b: i64) -> (i64, i64) {
    if a < b {
        (a, b)
    } else {
        (b, a)
    }
}

/// Orders two distinct account ids into the canonical lock-acquisition
/// order. Acquiring in request ("source first") order would let two opposed
/// transfers on the same pair deadlock; this total order rules the circular
/// wait out.
pub fn lock_order(a: i64, b: i64) -> (r: (i64, i64))
    requires
        a != b,
    ensures
        r == spec_lock_order(a, b),
        r.0 < r.1,
{
    if a < b {
        (a, b)
    } else {
        (b, a)
    }
}

/// The states one transfer attempt passes through: the forward chain on
/// success, `RolledBack` from any intermediate state on failure.
#[derive(Debug, Clone, Copy, PartialEq, Eq, Structural)]
pub enum Phase {
    Initiated,
    TransferRecorded,
    EntriesRecorded,
    BalancesUpdated,
    Committed,
    RolledBack,
}

/// The two terminal states: committed, or rolled back.
pub open spec fn phase_terminal(p: Phase) -> bool {
    p == Phase::Committed || p == Phase::RolledBack
}

/// The per-attempt transition function: a failed step rolls the whole
/// attempt back from any intermediate state; a successful step moves one
/// state down the chain toward `Committed`.
pub open spec fn spec_advance_phase(p: Phase, step_ok: bool) -> Phase {
    if !step_ok {
        Phase::RolledBack
    } else {
        match p {
            Phase::Initiated => Phase::TransferRecorded,
            Phase::TransferRecorded => Phase::EntriesRecorded,
            Phase::EntriesRecorded => Phase::BalancesUpdated,
            Phase::BalancesUpdated => Phase::Committed,
            _ => p,
        }
    }
}

/// Advances one attempt by one step's outcome.
pub fn advance_phase(p: Phase, step_ok: bool) -> (q: Phase)
    requires
        !phase_terminal(p),
    ensures
        q == spec_advance_phase(p, step_ok),
        !step_ok ==> q == Phase::RolledBack,
{
    if !step_ok {
        Phase::RolledBack
    } else {
        match p {
            Phase::Initiated => Phase::TransferRecorded,
            Phase::TransferRecorded => Phase::EntriesRecorded,
            Phase::EntriesRecorded => Phase::BalancesUpdated,
            Phase::BalancesUpdated => Phase::Committed,
            _ => p,
        }
    }
}

/// How many times a rolled-back attempt with a retryable cause re-enters
/// `Initiated` before the engine gives up.
#[derive(Debug, Clone, Copy, PartialEq, Eq, Structural)]
pub struct RetryPolicy {
    pub max_retries: u32,
}

/// Whether a rolled-back attempt re-enters `Initiated`: exactly when the
/// cause is retryable and the bound is not yet exhausted.
pub fn should_retry(e: &LedgerError, attempts_used: u32, policy: &RetryPolicy) -> (r: bool)
    ensures
        r == (spec_retryable(*e) && attempts_used < policy.max_retries),
{
    crate::error::is_retryable(e) && attempts_used < policy.max_retries
}

/// What the caller finally sees for a terminal failure: an exhausted
/// retryable cause surfaces as `TransferFailed`, anything else as itself.
pub fn surface_error(e: LedgerError) -> (r: LedgerError)
    ensures
        r == if spec_retryable(e) {
            LedgerError::TransferFailed
        } else {
            e
        },
{
    if crate::error::is_retryable(&e) {
        LedgerError::TransferFailed
    } else {
        e
    }
}

/// The wait before re-running attempt `n`: doubling from 10 ms, saturating
/// once it reaches a second.
pub open spec fn spec_backoff_ms(n: nat) -> int
    decreases n,
{
    if n == 0 {
        10
    } else if spec_backoff_ms((n - 1) as nat) >= 1000 {
        spec_backoff_ms((n - 1) as nat)
    } else {
        2 * spec_backoff_ms((n - 1) as nat)
    }
}

/// Once saturated, the backoff stays put.
proof fn lemma_backoff_saturates(i: nat, m: nat)
    requires
        spec_backoff_ms(i) >= 1000,
        i <= m,
    ensures
        spec_backoff_ms(m) == spec_backoff_ms(i),
    decreases m,
{
    if m > i {
        lemma_backoff_saturates(i, (m - 1) as nat);
    }
}

/// The doubling backoff is bounded, so computing it cannot overflow.
proof fn lemma_backoff_bounds(n: nat)
    ensures
        10 <= spec_backoff_ms(n) <= 1998,
    decreases n,
{
    if n > 0 {
        lemma_backoff_bounds((n - 1) as nat);
    }
}

/// The milliseconds to wait before re-running attempt number `attempt`.
pub fn backoff_ms(attempt: u32) -> (r: u64)
    ensures
        r == spec_backoff_ms(attempt as nat),
{
    let mut d: u64 = 10;
    let mut i: u32 = 0;
    while i < attempt && d < 1000
        invariant
            i <= attempt,
            d == spec_backoff_ms(i as nat),
            10 <= d <= 1998,
        decreases attempt - i,
    {
        d = d * 2;
        i = i + 1;
    }
    proof {
        if i < attempt {
            lemma_backoff_saturates(i as nat, attempt as nat);
        }
    }
    d
}

/// The fail-fast argument check, run before any transaction is opened;
/// `InvalidArgument` exactly on a non-positive amount or a self-transfer.
pub fn validate_transfer(arg: &TransferTxParams) -> (r: Result<(), LedgerError>)
    ensures
        r == if transfer_args_valid(*arg) {
            Ok::<(), LedgerError>(())
        } else {
            Err::<(), LedgerError>(LedgerError::InvalidArgument)
        },
{
    if arg.amount <= 0 || arg.from_account_id == arg.to_account_id {
        Err(LedgerError::InvalidArgument)
    } else {
        Ok(())
    }
}

impl Ledger {
    /// One transfer as a single atomic unit of work: validate, insert the
    /// transfer record, insert the debit and credit entries, lock both
    /// accounts in canonical order and apply the balance deltas, commit.
    ///
    /// Every failure leaves the ledger exactly as it was — no partial state
    /// ever survives — and each error kind comes exactly when stated:
    /// `InvalidArgument` for a bad request (before any transaction),
    /// `NotFound` for an absent account, `ConstraintViolation` for a balance
    /// that would leave the store's integer range. On success the committed
    /// effect is exactly `transfer_committed`: the total of all balances is
    /// conserved, and entry-balance consistency is preserved.
    pub fn transfer_tx(&mut self, arg: TransferTxParams) -> (r: Result<
        TransferTxResult,
        LedgerError,
    >)
        requires
            old(self).wf(),
            old(self).next_transfer_id < i64::MAX,
            old(self).next_entry_id < i64::MAX - 1,
        ensures
            final(self).wf(),
            r is Err ==> *final(self) == *old(self),
            !transfer_args_valid(arg) ==> r == Err::<TransferTxResult, LedgerError>(
                LedgerError::InvalidArgument,
            ),
            transfer_args_valid(arg) && !transfer_accounts_exist(*old(self), arg) ==> r == Err::<
                TransferTxResult,
                LedgerError,
            >(LedgerError::NotFound),
            transfer_args_valid(arg) && transfer_accounts_exist(*old(self), arg)
                && !transfer_fits(*old(self), arg) ==> r == Err::<TransferTxResult, LedgerError>(
                LedgerError::ConstraintViolation,
            ),
            transfer_args_valid(arg) && transfer_accounts_exist(*old(self), arg) && transfer_fits(
                *old(self),
                arg,
            ) ==> r is Ok,
            r matches Ok(res) ==> transfer_committed(*old(self), *final(self), arg, res),
            crate::ledger::sum_balances(final(self).accounts@) == crate::ledger::sum_balances(
                old(self).accounts@,
            ),
            old(self).entry_balanced() ==> final(self).entry_balanced(),
    {
        if let Err(e) = validate_transfer(&arg) {
            return Err(e);
        }
        let from_before = match self.get_account(arg.from_account_id) {
            Ok(a) => a,
            Err(_) => {
                return Err(LedgerError::NotFound);
            },
        };
        let to_before = match self.get_account(arg.to_account_id) {
            Ok(a) => a,
            Err(_) => {
                return Err(LedgerError::NotFound);
            },
        };
        if from_before.balance < i64::MIN + arg.amount {
            return Err(LedgerError::ConstraintViolation);
        }
        if to_before.balance > i64::MAX - arg.amount {
            return Err(LedgerError::ConstraintViolation);
        }
        let ghost pre = *self;

        let transfer = match self.create_transfer(
            CreateTransferParams {
                from_account_id: arg.from_account_id,
                to_account_id: arg.to_account_id,
                amount: arg.amount,
            },
        ) {
            Ok(t) => t,
            Err(_) => unreached(),
        };
        let from_entry = match self.create_entry(
            CreateEntryParams { account_id: arg.from_account_id, amount: 0 - arg.amount },
        ) {
            Ok(e) => e,
            Err(_) => unreached(),
        };
        let to_entry = match self.create_entry(
            CreateEntryParams { account_id: arg.to_account_id, amount: arg.amount },
        ) {
            Ok(e) => e,
            Err(_) => unreached(),
        };

        let (lo, hi) = lock_order(arg.from_account_id, arg.to_account_id);
        let lo_delta = if lo == arg.from_account_id {
            0 - arg.amount
        } else {
            arg.amount
        };
        let hi_delta = if lo == arg.from_account_id {
            arg.amount
        } else {
            0 - arg.amount
        };
        let ghost mid = *self;
        let acc_lo = match self.add_account_balance(
            AddAccountBalanceParams { id: lo, amount: lo_delta },
        ) {
            Ok(a) => a,
            Err(_) => unreached(),
        };
        let ghost mid2 = *self;
        proof {
            lemma_lookup_apply_delta(mid.accounts@, lo, lo_delta as int, hi);
        }
        let acc_hi = match self.add_account_balance(
            AddAccountBalanceParams { id: hi, amount: hi_delta },
        ) {
            Ok(a) => a,
            Err(_) => unreached(),
        };

        let (from_account, to_account) = if lo == arg.from_account_id {
            (acc_lo, acc_hi)
        } else {
            (acc_hi, acc_lo)
        };
        let result = TransferTxResult { transfer, from_account, to_account, from_entry, to_entry };

        proof {
            let a = arg.amount as int;
            let s0 = pre.accounts@;
            if lo == arg.from_account_id {
                assert(self.accounts@ == apply_delta(
                    apply_delta(s0, arg.from_account_id, -a),
                    arg.to_account_id,
                    a,
                ));
            } else {
                lemma_apply_delta_commute(s0, arg.to_account_id, a, arg.from_account_id, -a);
                assert(self.accounts@ =~= apply_delta(
                    apply_delta(s0, arg.from_account_id, -a),
                    arg.to_account_id,
                    a,
                ));
            }
            lemma_lookup_apply_delta(mid.accounts@, lo, lo_delta as int, lo);
            lemma_lookup_apply_delta(mid2.accounts@, hi, hi_delta as int, hi);
            lemma_lookup_apply_delta(mid2.accounts@, hi, hi_delta as int, lo);
            assert(transfer_committed(pre, *self, arg, result));
            crate::laws::lemma_committed_conserves_total(pre, *self, arg, result);
            if pre.entry_balanced() {
                crate::laws::lemma_committed_keeps_entry_balance(pre, *self, arg, result);
            }
        }
        Ok(result)
    }
}

} // verus!
