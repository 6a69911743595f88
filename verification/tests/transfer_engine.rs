//! The transfer engine's contract under test: atomic units of work,
//! canonical lock ordering, bounded retries, and the ledger laws —
//! conservation, entry-balance consistency, atomicity, idempotent retries.

use bank_ledger::checker::{apply_transfers, transfer_with_retries};
use bank_ledger::engine::{
    advance_phase, backoff_ms, lock_order, should_retry, surface_error, validate_transfer, Phase,
    RetryPolicy,
};
use bank_ledger::error::{is_retryable, LedgerError};
use bank_ledger::ledger::Ledger;
use bank_ledger::models::{CreateAccountParams, TransferTxParams};
use bank_ledger::util::{random_currency, random_int, random_owner};

fn account_with_balance(l: &mut Ledger, balance: i64) -> bank_ledger::models::Account {
    l.create_account(CreateAccountParams {
        owner: random_owner(),
        balance,
        currency: random_currency(),
    })
}

fn total_balance(l: &Ledger) -> i64 {
    l.accounts.iter().map(|a| a.balance).sum()
}

fn entry_sum(l: &Ledger, account_id: i64) -> i64 {
    l.list_entries(account_id).iter().map(|e| e.amount).sum()
}

#[test]
fn test_transfer_tx() {
    let mut l = Ledger::new(0);
    let from_account = account_with_balance(&mut l, random_int(11, 1000));
    let to_account = account_with_balance(&mut l, random_int(0, 1000));

    // run n transfer transactions on the same pair
    let n = 10;
    let amount = random_int(10, from_account.balance);

    for _ in 0..n {
        let result = l
            .transfer_tx(TransferTxParams {
                from_account_id: from_account.id,
                to_account_id: to_account.id,
                amount,
            })
            .unwrap();

        assert_eq!(result.from_account.id, from_account.id);
        assert_eq!(result.to_account.id, to_account.id);
        assert_eq!(result.from_entry.amount, -result.to_entry.amount);
        assert_eq!(result.from_entry.amount, -result.transfer.amount);
        assert_eq!(result.to_entry.amount, result.transfer.amount);
        assert_ne!(result.transfer.id, 0);
    }

    assert_eq!(
        l.get_account(from_account.id).unwrap().balance,
        from_account.balance - n * amount
    );
    assert_eq!(
        l.get_account(to_account.id).unwrap().balance,
        to_account.balance + n * amount
    );
}

#[test]
fn test_transfer_scenario() {
    // Accounts A(balance=500) and B(balance=100); transfer(A, B, 200)
    // commits to A=300, B=300, one transfer of 200 with entries -200/+200;
    // a second transfer(B, A, 50) still commits to A=350, B=250 with the
    // 600 total conserved throughout.
    let mut l = Ledger::new(0);
    let a = account_with_balance(&mut l, 500);
    let b = account_with_balance(&mut l, 100);
    assert_eq!(total_balance(&l), 600);

    let first = l
        .transfer_tx(TransferTxParams {
            from_account_id: a.id,
            to_account_id: b.id,
            amount: 200,
        })
        .unwrap();
    assert_eq!(first.from_account.balance, 300);
    assert_eq!(first.to_account.balance, 300);
    assert_eq!(first.transfer.amount, 200);
    assert_eq!(first.from_entry.amount, -200);
    assert_eq!(first.to_entry.amount, 200);
    assert_eq!(total_balance(&l), 600);

    let second = l
        .transfer_tx(TransferTxParams {
            from_account_id: b.id,
            to_account_id: a.id,
            amount: 50,
        })
        .unwrap();
    assert_eq!(second.to_account.balance, 350);
    assert_eq!(second.from_account.balance, 250);
    assert_eq!(l.get_account(a.id).unwrap().balance, 350);
    assert_eq!(l.get_account(b.id).unwrap().balance, 250);
    assert_eq!(total_balance(&l), 600);
}

#[test]
fn test_transfer_conservation_over_batch() {
    // ten transfers of random amounts between the same two accounts, in
    // both directions: the sum of balances never changes.
    let mut l = Ledger::new(0);
    let a = account_with_balance(&mut l, random_int(0, 1000));
    let b = account_with_balance(&mut l, random_int(0, 1000));
    let before = total_balance(&l);

    let mut batch = Vec::new();
    for i in 0..10 {
        let (from, to) = if i % 2 == 0 { (a.id, b.id) } else { (b.id, a.id) };
        batch.push(TransferTxParams {
            from_account_id: from,
            to_account_id: to,
            amount: random_int(1, 200),
        });
    }
    let results = apply_transfers(&mut l, &batch);

    assert_eq!(results.len(), 10);
    for r in &results {
        assert!(r.is_ok());
    }
    assert_eq!(total_balance(&l), before);
}

#[test]
fn test_batch_with_failures_conserves() {
    // a failed request in the middle of a batch leaves no trace of itself;
    // the committed ones around it still conserve the total.
    let mut l = Ledger::new(0);
    let a = account_with_balance(&mut l, 500);
    let b = account_with_balance(&mut l, 100);

    let batch = vec![
        TransferTxParams {
            from_account_id: a.id,
            to_account_id: b.id,
            amount: 50,
        },
        // self-transfer: rejected before any transaction
        TransferTxParams {
            from_account_id: a.id,
            to_account_id: a.id,
            amount: 10,
        },
        // absent destination
        TransferTxParams {
            from_account_id: a.id,
            to_account_id: 999,
            amount: 10,
        },
        TransferTxParams {
            from_account_id: b.id,
            to_account_id: a.id,
            amount: 20,
        },
    ];
    let results = apply_transfers(&mut l, &batch);

    assert!(results[0].is_ok());
    assert_eq!(results[1].as_ref().unwrap_err(), &LedgerError::InvalidArgument);
    assert_eq!(results[2].as_ref().unwrap_err(), &LedgerError::NotFound);
    assert!(results[3].is_ok());

    assert_eq!(l.transfers.len(), 2);
    assert_eq!(l.entries.len(), 4);
    assert_eq!(l.get_account(a.id).unwrap().balance, 470);
    assert_eq!(l.get_account(b.id).unwrap().balance, 130);
    assert_eq!(total_balance(&l), 600);
}

#[test]
fn test_entry_balance_consistency() {
    // after a set of committed transfers, every account's balance equals
    // the sum of its entries (accounts opened at balance zero, then funded
    // through a transfer from a zero-opened reserve would stay at zero
    // total; here the opening balances are zero so sums match exactly).
    let mut l = Ledger::new(0);
    let a = account_with_balance(&mut l, 0);
    let b = account_with_balance(&mut l, 0);

    l.transfer_tx(TransferTxParams {
        from_account_id: a.id,
        to_account_id: b.id,
        amount: 70,
    })
    .unwrap();
    l.transfer_tx(TransferTxParams {
        from_account_id: b.id,
        to_account_id: a.id,
        amount: 30,
    })
    .unwrap();

    assert_eq!(l.get_account(a.id).unwrap().balance, entry_sum(&l, a.id));
    assert_eq!(l.get_account(b.id).unwrap().balance, entry_sum(&l, b.id));
    assert_eq!(entry_sum(&l, a.id), -40);
    assert_eq!(entry_sum(&l, b.id), 40);
}

#[test]
fn test_transfer_atomicity_on_failure() {
    // a transfer that fails at any step leaves zero new rows in entries and
    // transfers, and zero balance change for both accounts.
    let mut l = Ledger::new(0);
    let a = account_with_balance(&mut l, 500);
    let b = account_with_balance(&mut l, i64::MAX - 10);

    let snapshot = |l: &Ledger| {
        (
            l.entries.len(),
            l.transfers.len(),
            l.get_account(a.id).unwrap().balance,
            l.get_account(b.id).unwrap().balance,
        )
    };
    let before = snapshot(&l);

    // invalid argument: non-positive amount, rejected before any transaction
    let r = l.transfer_tx(TransferTxParams {
        from_account_id: a.id,
        to_account_id: b.id,
        amount: 0,
    });
    assert_eq!(r.unwrap_err(), LedgerError::InvalidArgument);
    assert_eq!(snapshot(&l), before);

    // invalid argument: self-transfer
    let r = l.transfer_tx(TransferTxParams {
        from_account_id: a.id,
        to_account_id: a.id,
        amount: 5,
    });
    assert_eq!(r.unwrap_err(), LedgerError::InvalidArgument);
    assert_eq!(snapshot(&l), before);

    // absent destination account
    let r = l.transfer_tx(TransferTxParams {
        from_account_id: a.id,
        to_account_id: 777,
        amount: 5,
    });
    assert_eq!(r.unwrap_err(), LedgerError::NotFound);
    assert_eq!(snapshot(&l), before);

    // destination balance would leave the store's integer range
    let r = l.transfer_tx(TransferTxParams {
        from_account_id: a.id,
        to_account_id: b.id,
        amount: 100,
    });
    assert_eq!(r.unwrap_err(), LedgerError::ConstraintViolation);
    assert_eq!(snapshot(&l), before);
}

#[test]
fn test_transfer_allows_negative_balance() {
    // the engine enforces no balance floor: overdrawing the source commits
    // and conservation still holds.
    let mut l = Ledger::new(0);
    let a = account_with_balance(&mut l, 10);
    let b = account_with_balance(&mut l, 0);

    let r = l
        .transfer_tx(TransferTxParams {
            from_account_id: a.id,
            to_account_id: b.id,
            amount: 25,
        })
        .unwrap();
    assert_eq!(r.from_account.balance, -15);
    assert_eq!(r.to_account.balance, 25);
    assert_eq!(total_balance(&l), 10);
}

#[test]
fn test_opposed_transfers_both_commit() {
    // one call transferring A to B and one transferring B to A on the same
    // pair both commit; the canonical lock order makes the opposed pair
    // deadlock-free, and the serialized outcomes compose.
    let mut l = Ledger::new(0);
    let a = account_with_balance(&mut l, 300);
    let b = account_with_balance(&mut l, 300);

    let ab = l.transfer_tx(TransferTxParams {
        from_account_id: a.id,
        to_account_id: b.id,
        amount: 120,
    });
    let ba = l.transfer_tx(TransferTxParams {
        from_account_id: b.id,
        to_account_id: a.id,
        amount: 80,
    });
    assert!(ab.is_ok());
    assert!(ba.is_ok());
    assert_eq!(l.get_account(a.id).unwrap().balance, 260);
    assert_eq!(l.get_account(b.id).unwrap().balance, 340);
    assert_eq!(total_balance(&l), 600);
}

#[test]
fn test_lock_order_is_direction_independent() {
    assert_eq!(lock_order(3, 9), (3, 9));
    assert_eq!(lock_order(9, 3), (3, 9));
    assert_eq!(lock_order(-5, 2), (-5, 2));
}

#[test]
fn test_idempotent_retry_single_effect() {
    // a transfer that conflicts twice and then commits produces exactly one
    // transfer row and one entry pair — never duplicates.
    let mut l = Ledger::new(0);
    let a = account_with_balance(&mut l, 400);
    let b = account_with_balance(&mut l, 100);

    let conflicts = vec![true, true, false];
    let policy = RetryPolicy { max_retries: 3 };
    let res = transfer_with_retries(
        &mut l,
        TransferTxParams {
            from_account_id: a.id,
            to_account_id: b.id,
            amount: 150,
        },
        &conflicts,
        &policy,
    )
    .unwrap();

    assert_eq!(l.transfers.len(), 1);
    assert_eq!(l.entries.len(), 2);
    assert_eq!(res.transfer.amount, 150);
    assert_eq!(l.get_account(a.id).unwrap().balance, 250);
    assert_eq!(l.get_account(b.id).unwrap().balance, 250);
}

#[test]
fn test_retries_exhausted_surface_transfer_failed() {
    // once the bound is exhausted on a retryable cause the caller sees
    // TransferFailed and the ledger carries no trace of any attempt.
    let mut l = Ledger::new(0);
    let a = account_with_balance(&mut l, 400);
    let b = account_with_balance(&mut l, 100);

    let conflicts = vec![true, true, true];
    let policy = RetryPolicy { max_retries: 2 };
    let res = transfer_with_retries(
        &mut l,
        TransferTxParams {
            from_account_id: a.id,
            to_account_id: b.id,
            amount: 150,
        },
        &conflicts,
        &policy,
    );

    assert_eq!(res.unwrap_err(), LedgerError::TransferFailed);
    assert_eq!(l.transfers.len(), 0);
    assert_eq!(l.entries.len(), 0);
    assert_eq!(l.get_account(a.id).unwrap().balance, 400);
    assert_eq!(l.get_account(b.id).unwrap().balance, 100);
}

#[test]
fn test_validate_transfer_fails_fast() {
    assert_eq!(
        validate_transfer(&TransferTxParams {
            from_account_id: 1,
            to_account_id: 2,
            amount: 0,
        }),
        Err(LedgerError::InvalidArgument)
    );
    assert_eq!(
        validate_transfer(&TransferTxParams {
            from_account_id: 1,
            to_account_id: 1,
            amount: 5,
        }),
        Err(LedgerError::InvalidArgument)
    );
    assert_eq!(
        validate_transfer(&TransferTxParams {
            from_account_id: 1,
            to_account_id: 2,
            amount: 5,
        }),
        Ok(())
    );
}

#[test]
fn test_phase_machine_success_chain() {
    let p = Phase::Initiated;
    let p = advance_phase(p, true);
    assert_eq!(p, Phase::TransferRecorded);
    let p = advance_phase(p, true);
    assert_eq!(p, Phase::EntriesRecorded);
    let p = advance_phase(p, true);
    assert_eq!(p, Phase::BalancesUpdated);
    let p = advance_phase(p, true);
    assert_eq!(p, Phase::Committed);
}

#[test]
fn test_phase_machine_rolls_back_from_any_state() {
    assert_eq!(advance_phase(Phase::Initiated, false), Phase::RolledBack);
    assert_eq!(
        advance_phase(Phase::TransferRecorded, false),
        Phase::RolledBack
    );
    assert_eq!(
        advance_phase(Phase::EntriesRecorded, false),
        Phase::RolledBack
    );
    assert_eq!(
        advance_phase(Phase::BalancesUpdated, false),
        Phase::RolledBack
    );
}

#[test]
fn test_retry_classification() {
    assert!(is_retryable(&LedgerError::LockConflict));
    assert!(is_retryable(&LedgerError::SerializationFailure));
    assert!(is_retryable(&LedgerError::Timeout));
    assert!(!is_retryable(&LedgerError::InvalidArgument));
    assert!(!is_retryable(&LedgerError::NotFound));
    assert!(!is_retryable(&LedgerError::StoreUnavailable));
    assert!(!is_retryable(&LedgerError::ConstraintViolation));

    let policy = RetryPolicy { max_retries: 2 };
    assert!(should_retry(&LedgerError::SerializationFailure, 0, &policy));
    assert!(should_retry(&LedgerError::SerializationFailure, 1, &policy));
    assert!(!should_retry(&LedgerError::SerializationFailure, 2, &policy));
    assert!(!should_retry(&LedgerError::StoreUnavailable, 0, &policy));

    assert_eq!(
        surface_error(LedgerError::SerializationFailure),
        LedgerError::TransferFailed
    );
    assert_eq!(
        surface_error(LedgerError::Timeout),
        LedgerError::TransferFailed
    );
    assert_eq!(
        surface_error(LedgerError::NotFound),
        LedgerError::NotFound
    );
}

#[test]
fn test_backoff_doubles_then_saturates() {
    assert_eq!(backoff_ms(0), 10);
    assert_eq!(backoff_ms(1), 20);
    assert_eq!(backoff_ms(2), 40);
    assert_eq!(backoff_ms(6), 640);
    assert_eq!(backoff_ms(7), 1280);
    assert_eq!(backoff_ms(8), 1280);
    assert_eq!(backoff_ms(30), 1280);
}
