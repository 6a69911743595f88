//! The three persisted record kinds of the ledger — accounts, entries,
//! transfers — and the parameter bundles the repository and engine take.
//! Timestamps are plain integers (seconds since an epoch); the process edge
//! converts to and from its calendar types.

use vstd::prelude::*;

verus! {

/// A bank account row. `balance` is in minor currency units and is mutated
/// only by the transfer engine; every other field is immutable after creation.
#[derive(Debug, Clone, PartialEq)]
pub struct Account {
    pub id: i64,
    pub owner: String,
    pub balance: i64,
    pub currency: String,
    pub created_at: i64,
}

impl Account {
    /// A field-for-field copy of the row, as a read returns it.
    pub fn duplicate(&self) -> (r: Account)
        ensures
            r == *self,
    {
        Account {
            id: self.id,
            owner: self.owner.clone(),
            balance: self.balance,
            currency: self.currency.clone(),
            created_at: self.created_at,
        }
    }
}

/// An immutable signed ledger line recording one account's share of one
/// balance change; the audit trail for every mutation of `balance`.
#[derive(Debug, Clone, Copy, PartialEq, Eq, Structural)]
pub struct Entry {
    pub id: i64,
    pub account_id: i64,
    pub amount: i64,
    pub created_at: i64,
}

/// The record of one complete money movement between two distinct accounts,
/// tied to exactly two entries: `-amount` on the source, `+amount` on the
/// destination.
#[derive(Debug, Clone, Copy, PartialEq, Eq, Structural)]
pub struct Transfer {
    pub id: i64,
    pub from_account_id: i64,
    pub to_account_id: i64,
    pub amount: i64,
    pub created_at: i64,
}

#[derive(Debug, Clone)]
pub struct CreateAccountParams {
    pub owner: String,
    pub balance: i64,
    pub currency: String,
}

#[derive(Debug, Clone, Copy)]
pub struct AddAccountBalanceParams {
    pub id: i64,
    pub amount: i64,
}

#[derive(Debug, Clone, Copy)]
pub struct ListAccountsParams {
    pub limit: i64,
    pub offset: i64,
}

#[derive(Debug, Clone, Copy)]
pub struct CreateEntryParams {
    pub account_id: i64,
    pub amount: i64,
}

#[derive(Debug, Clone, Copy)]
pub struct CreateTransferParams {
    pub from_account_id: i64,
    pub to_account_id: i64,
    pub amount: i64,
}

/// The request a transfer caller hands the engine: move `amount` (positive,
/// minor units) from one account to the other.
#[derive(Debug, Clone, Copy)]
pub struct TransferTxParams {
    pub from_account_id: i64,
    pub to_account_id: i64,
    pub amount: i64,
}

/// The consistent snapshot a committed transfer hands back: the transfer row,
/// its two entries, and both accounts as the commit left them, so the caller
/// needs no second read that could race against other transfers.
#[derive(Debug, Clone)]
pub struct TransferTxResult {
    pub transfer: Transfer,
    pub from_account: Account,
    pub to_account: Account,
    pub from_entry: Entry,
    pub to_entry: Entry,
}

/// The body of an account-creation request as the HTTP layer hands it over.
#[derive(Debug, Clone)]
pub struct CreateAccountRequest {
    pub owner: String,
    pub currency: String,
}

} // verus!
