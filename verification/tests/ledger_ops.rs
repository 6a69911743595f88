//! Repository-level operations on the ledger: account, entry and transfer
//! CRUD, each individually atomic.

use bank_ledger::error::LedgerError;
use bank_ledger::ledger::Ledger;
use bank_ledger::models::{
    AddAccountBalanceParams, CreateAccountParams, CreateEntryParams, CreateTransferParams,
    ListAccountsParams,
};
use bank_ledger::util::{random_currency, random_int, random_money, random_owner};

fn random_account(l: &mut Ledger) -> bank_ledger::models::Account {
    l.create_account(CreateAccountParams {
        owner: random_owner(),
        balance: random_money(),
        currency: random_currency(),
    })
}

#[test]
fn test_create_account() {
    let mut l = Ledger::new(0);

    let arg = CreateAccountParams {
        owner: random_owner(),
        balance: random_money(),
        currency: random_currency(),
    };

    let account = l.create_account(arg.clone());
    assert_eq!(account.owner, arg.owner);
    assert_eq!(account.balance, arg.balance);
    assert_eq!(account.currency, arg.currency);

    assert_ne!(account.id, 0);
}

#[test]
fn test_get_account() {
    let mut l = Ledger::new(0);

    let account = random_account(&mut l);
    let account2 = l.get_account(account.id).unwrap();

    assert_eq!(account, account2);
}

#[test]
fn test_update_account() {
    let mut l = Ledger::new(0);

    let account = random_account(&mut l);
    let new_balance = random_money();
    let account2 = l.update_account(account.id, new_balance).unwrap();

    assert_eq!(account2.balance, new_balance);
    assert_eq!(account2.id, account.id);
    assert_eq!(account2.owner, account.owner);
}

#[test]
fn test_delete_account() {
    let mut l = Ledger::new(0);

    let account = random_account(&mut l);
    l.delete_account(account.id).unwrap();

    let account2 = l.get_account(account.id);
    assert!(account2.is_err());
    assert_eq!(account2.unwrap_err(), LedgerError::NotFound);
}

#[test]
fn test_delete_account_referenced() {
    let mut l = Ledger::new(0);

    let account = random_account(&mut l);
    l.create_entry(CreateEntryParams { account_id: account.id, amount: 5 })
        .unwrap();

    let res = l.delete_account(account.id);
    assert_eq!(res, Err(LedgerError::ConstraintViolation));
    assert!(l.get_account(account.id).is_ok());
}

#[test]
fn test_delete_account_absent_is_noop() {
    let mut l = Ledger::new(0);
    assert_eq!(l.delete_account(12345), Ok(()));
}

#[test]
fn test_list_accounts() {
    let mut l = Ledger::new(0);

    let limit = 10;
    let offset = 0;
    for _ in 0..limit {
        random_account(&mut l);
    }

    let accounts = l.list_accounts(ListAccountsParams { limit, offset }).unwrap();

    assert_eq!(accounts.len(), limit as usize);
}

#[test]
fn test_list_accounts_rejects_negative() {
    let mut l = Ledger::new(0);
    random_account(&mut l);

    let bad_limit = l.list_accounts(ListAccountsParams {
        limit: -1,
        offset: 0,
    });
    assert_eq!(bad_limit, Err(LedgerError::InvalidArgument));

    let bad_offset = l.list_accounts(ListAccountsParams {
        limit: 10,
        offset: -3,
    });
    assert_eq!(bad_offset, Err(LedgerError::InvalidArgument));
}

#[test]
fn test_list_accounts_offset_and_order() {
    let mut l = Ledger::new(0);
    for _ in 0..5 {
        random_account(&mut l);
    }

    let page = l.list_accounts(ListAccountsParams { limit: 2, offset: 3 }).unwrap();
    assert_eq!(page.len(), 2);
    assert_eq!(page[0].id, 4);
    assert_eq!(page[1].id, 5);

    let beyond = l
        .list_accounts(ListAccountsParams { limit: 10, offset: 99 })
        .unwrap();
    assert!(beyond.is_empty());
}

#[test]
fn test_add_account_balance() {
    let mut l = Ledger::new(0);

    let account = random_account(&mut l);
    let amount = random_money();
    let account2 = l
        .add_account_balance(AddAccountBalanceParams {
            id: account.id,
            amount,
        })
        .unwrap();

    assert_eq!(account2.balance, account.balance + amount);
}

#[test]
fn test_add_account_balance_overflow_is_refused() {
    let mut l = Ledger::new(0);
    let account = l.create_account(CreateAccountParams {
        owner: random_owner(),
        balance: i64::MAX - 1,
        currency: random_currency(),
    });

    let res = l.add_account_balance(AddAccountBalanceParams {
        id: account.id,
        amount: 2,
    });
    assert_eq!(res, Err(LedgerError::ConstraintViolation));
    assert_eq!(l.get_account(account.id).unwrap().balance, i64::MAX - 1);
}

#[test]
fn test_update_account_tx() {
    let mut l = Ledger::new(0);

    let account = random_account(&mut l);
    let new_balance = random_money();
    let account2 = l.update_account_tx(account.id, new_balance).unwrap();

    assert_eq!(account2.balance, new_balance);
    assert_eq!(account2.id, account.id);
    assert_eq!(account2.owner, account.owner);
}

#[test]
fn test_get_account_for_update() {
    let mut l = Ledger::new(0);

    let account = random_account(&mut l);
    let account2 = l.get_account_for_update(account.id).unwrap();

    assert_eq!(account2, account);
}

#[test]
fn test_create_entry() {
    let mut l = Ledger::new(0);
    let account = random_account(&mut l);

    let amount = random_money();
    let entry = l
        .create_entry(CreateEntryParams {
            account_id: account.id,
            amount,
        })
        .unwrap();

    assert_eq!(entry.account_id, account.id);
    assert_eq!(entry.amount, amount);
}

#[test]
fn test_create_entry_missing_account() {
    let mut l = Ledger::new(0);
    let res = l.create_entry(CreateEntryParams {
        account_id: 42,
        amount: 7,
    });
    assert_eq!(res, Err(LedgerError::NotFound));
}

#[test]
fn test_get_entry() {
    let mut l = Ledger::new(0);
    let account = random_account(&mut l);

    let entry = l
        .create_entry(CreateEntryParams {
            account_id: account.id,
            amount: random_money(),
        })
        .unwrap();

    let got = l.get_entry(entry.id).unwrap();
    assert_eq!(got, entry);
}

#[test]
fn test_list_entries_filters_and_orders() {
    let mut l = Ledger::new(0);
    let a = random_account(&mut l);
    let b = random_account(&mut l);

    let e1 = l
        .create_entry(CreateEntryParams {
            account_id: a.id,
            amount: 1,
        })
        .unwrap();
    let _other = l
        .create_entry(CreateEntryParams {
            account_id: b.id,
            amount: 2,
        })
        .unwrap();
    let e3 = l
        .create_entry(CreateEntryParams {
            account_id: a.id,
            amount: 3,
        })
        .unwrap();

    let listed = l.list_entries(a.id);
    assert_eq!(listed, vec![e1, e3]);
}

#[test]
fn test_create_transfer() {
    let mut l = Ledger::new(0);

    let from_account = l.create_account(CreateAccountParams {
        owner: random_owner(),
        balance: random_int(11, 1000),
        currency: random_currency(),
    });
    let to_account = random_account(&mut l);

    let money = random_int(10, from_account.balance);

    let transfer = l
        .create_transfer(CreateTransferParams {
            from_account_id: from_account.id,
            to_account_id: to_account.id,
            amount: money,
        })
        .unwrap();

    assert_eq!(transfer.from_account_id, from_account.id);
    assert_eq!(transfer.to_account_id, to_account.id);
    assert_eq!(transfer.amount, money);
}

#[test]
fn test_create_transfer_rejects_bad_rows() {
    let mut l = Ledger::new(0);
    let a = random_account(&mut l);
    let b = random_account(&mut l);

    let self_transfer = l.create_transfer(CreateTransferParams {
        from_account_id: a.id,
        to_account_id: a.id,
        amount: 5,
    });
    assert_eq!(self_transfer, Err(LedgerError::ConstraintViolation));

    let nonpositive = l.create_transfer(CreateTransferParams {
        from_account_id: a.id,
        to_account_id: b.id,
        amount: 0,
    });
    assert_eq!(nonpositive, Err(LedgerError::ConstraintViolation));

    let missing = l.create_transfer(CreateTransferParams {
        from_account_id: a.id,
        to_account_id: 999,
        amount: 5,
    });
    assert_eq!(missing, Err(LedgerError::NotFound));
}

#[test]
fn test_get_transfer() {
    let mut l = Ledger::new(0);

    let from_account = l.create_account(CreateAccountParams {
        owner: random_owner(),
        balance: random_int(11, 1000),
        currency: random_currency(),
    });
    let to_account = random_account(&mut l);

    let money = random_int(10, from_account.balance);
    let transfer = l
        .create_transfer(CreateTransferParams {
            from_account_id: from_account.id,
            to_account_id: to_account.id,
            amount: money,
        })
        .unwrap();

    let got = l.get_transfer(transfer.id).unwrap();
    assert_eq!(got, transfer);
}

#[test]
fn test_list_transfers_both_sides() {
    let mut l = Ledger::new(0);
    let a = random_account(&mut l);
    let b = random_account(&mut l);
    let c = random_account(&mut l);

    let t1 = l
        .create_transfer(CreateTransferParams {
            from_account_id: a.id,
            to_account_id: b.id,
            amount: 5,
        })
        .unwrap();
    let t2 = l
        .create_transfer(CreateTransferParams {
            from_account_id: b.id,
            to_account_id: a.id,
            amount: 6,
        })
        .unwrap();
    let other = l
        .create_transfer(CreateTransferParams {
            from_account_id: b.id,
            to_account_id: c.id,
            amount: 7,
        })
        .unwrap();

    assert_eq!(l.list_transfers(a.id), vec![t1, t2]);
    assert_eq!(l.list_transfers(c.id), vec![other]);
}
