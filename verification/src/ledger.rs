//! The ledger state and its repository primitives.
//!
//! `Ledger` models the committed state of the relational store: the three
//! tables, each kept in insertion order with strictly ascending store-assigned
//! ids, plus the id counters and the creation-time stamp source. Every
//! repository operation is individually atomic on this state; the transfer
//! engine composes them into one atomic unit of work.

use vstd::prelude::*;

use crate::error::LedgerError;
use crate::models::{
    Account, AddAccountBalanceParams, CreateAccountParams, CreateEntryParams,
    CreateTransferParams, Entry, ListAccountsParams, Transfer,
};

verus! {

/// Account ids strictly increase in table order (so they are unique and the
/// table is already sorted for id-ordered listing).
pub open spec fn accounts_ascending(s: Seq<Account>) -> bool {
    forall|i: int, j: int| 0 <= i < j < s.len() ==> s[i].id < s[j].id
}

/// Entry ids strictly increase in table order.
pub open spec fn entries_ascending(s: Seq<Entry>) -> bool {
    forall|i: int, j: int| 0 <= i < j < s.len() ==> s[i].id < s[j].id
}

/// Transfer ids strictly increase in table order.
pub open spec fn transfers_ascending(s: Seq<Transfer>) -> bool {
    forall|i: int, j: int| 0 <= i < j < s.len() ==> s[i].id < s[j].id
}

/// The account row with the given id, scanning from the most recent row;
/// `None` when no row has that id.
pub open spec fn lookup_account(s: Seq<Account>, id: i64) -> Option<Account>
    decreases s.len(),
{
    if s.len() == 0 {
        None
    } else if s.last().id == id {
        Some(s.last())
    } else {
        lookup_account(s.drop_last(), id)
    }
}

pub open spec fn has_account(s: Seq<Account>, id: i64) -> bool {
    lookup_account(s, id) is Some
}

/// The balance of the account with the given id, or 0 when absent.
pub open spec fn balance_of(s: Seq<Account>, id: i64) -> int {
    match lookup_account(s, id) {
        Some(a) => a.balance as int,
        None => 0,
    }
}

/// The entry row with the given id.
pub open spec fn lookup_entry(s: Seq<Entry>, id: i64) -> Option<Entry>
    decreases s.len(),
{
    if s.len() == 0 {
        None
    } else if s.last().id == id {
        Some(s.last())
    } else {
        lookup_entry(s.drop_last(), id)
    }
}

/// The transfer row with the given id.
pub open spec fn lookup_transfer(s: Seq<Transfer>, id: i64) -> Option<Transfer>
    decreases s.len(),
{
    if s.len() == 0 {
        None
    } else if s.last().id == id {
        Some(s.last())
    } else {
        lookup_transfer(s.drop_last(), id)
    }
}

/// The sum of every account balance: the quantity transfers conserve.
pub open spec fn sum_balances(s: Seq<Account>) -> int
    decreases s.len(),
{
    if s.len() == 0 {
        0
    } else {
        sum_balances(s.drop_last()) + s.last().balance
    }
}

/// The sum of the entry amounts recorded against one account: what its
/// balance must equal when every mutation went through the engine.
pub open spec fn sum_entries_for(s: Seq<Entry>, id: i64) -> int
    decreases s.len(),
{
    if s.len() == 0 {
        0
    } else {
        sum_entries_for(s.drop_last(), id) + if s.last().account_id == id {
            s.last().amount as int
        } else {
            0
        }
    }
}

/// The signed contribution of one transfer to one account's balance.
pub open spec fn transfer_delta(t: Transfer, id: i64) -> int {
    (if t.to_account_id == id {
        t.amount as int
    } else {
        0
    }) - (if t.from_account_id == id {
        t.amount as int
    } else {
        0
    })
}

/// The net balance change a sequence of transfers applies to one account.
pub open spec fn net_delta(s: Seq<Transfer>, id: i64) -> int
    decreases s.len(),
{
    if s.len() == 0 {
        0
    } else {
        net_delta(s.drop_last(), id) + transfer_delta(s.last(), id)
    }
}

/// The row with its balance shifted by `delta` (truncated into `i64`; callers
/// establish that the true sum fits).
pub open spec fn rebalanced(a: Account, delta: int) -> Account {
    Account {
        id: a.id,
        owner: a.owner,
        balance: (a.balance + delta) as i64,
        currency: a.currency,
        created_at: a.created_at,
    }
}

/// The table with `delta` applied to every row whose id matches (exactly one
/// row in a well-formed table).
pub open spec fn apply_delta(s: Seq<Account>, id: i64, delta: int) -> Seq<Account>
    decreases s.len(),
{
    if s.len() == 0 {
        s
    } else {
        apply_delta(s.drop_last(), id, delta).push(
            if s.last().id == id {
                rebalanced(s.last(), delta)
            } else {
                s.last()
            },
        )
    }
}

/// The table with the matching row's balance replaced outright.
pub open spec fn with_balance(s: Seq<Account>, id: i64, balance: i64) -> Seq<Account>
    decreases s.len(),
{
    if s.len() == 0 {
        s
    } else {
        with_balance(s.drop_last(), id, balance).push(
            if s.last().id == id {
                Account {
                    id: s.last().id,
                    owner: s.last().owner,
                    balance: balance,
                    currency: s.last().currency,
                    created_at: s.last().created_at,
                }
            } else {
                s.last()
            },
        )
    }
}

/// A scan from the most recent row finds the row at `i` when no later row
/// carries the same id — in particular whenever ids are unique.
pub(crate) proof fn lemma_lookup_account_at(s: Seq<Account>, id: i64, i: int)
    requires
        0 <= i < s.len(),
        s[i].id == id,
        forall|j: int| i < j < s.len() ==> s[j].id != id,
    ensures
        lookup_account(s, id) == Some(s[i]),
    decreases s.len(),
{
    if i == s.len() - 1 {
    } else {
        assert(s.drop_last()[i] == s[i]);
        lemma_lookup_account_at(s.drop_last(), id, i);
    }
}

/// When a lookup finds a row, some index holds that row; when it finds none,
/// no index matches the id.
pub(crate) proof fn lemma_lookup_account_index(s: Seq<Account>, id: i64)
    ensures
        match lookup_account(s, id) {
            Some(a) => a.id == id && exists|i: int| 0 <= i < s.len() && s[i] == a,
            None => forall|i: int| 0 <= i < s.len() ==> s[i].id != id,
        },
    decreases s.len(),
{
    if s.len() == 0 {
    } else if s.last().id == id {
        assert(s[s.len() - 1] == s.last());
    } else {
        lemma_lookup_account_index(s.drop_last(), id);
        match lookup_account(s.drop_last(), id) {
            Some(a) => {
                let i = choose|i: int| 0 <= i < s.drop_last().len() && s.drop_last()[i] == a;
                assert(s[i] == a);
            },
            None => {
                assert forall|i: int| 0 <= i < s.len() implies s[i].id != id by {
                    if i < s.len() - 1 {
                        assert(s.drop_last()[i] == s[i]);
                    }
                }
            },
        }
    }
}

/// Looking up in a table with one more row: the new row wins on its own id,
/// every other id sees the old table.
pub(crate) proof fn lemma_lookup_account_push(s: Seq<Account>, a: Account, id: i64)
    ensures
        lookup_account(s.push(a), id) == if a.id == id {
            Some(a)
        } else {
            lookup_account(s, id)
        },
{
    assert(s.push(a).drop_last() =~= s);
}

/// Appending an account adds its balance to the total.
pub(crate) proof fn lemma_sum_balances_push(s: Seq<Account>, a: Account)
    ensures
        sum_balances(s.push(a)) == sum_balances(s) + a.balance,
{
    assert(s.push(a).drop_last() =~= s);
}

/// Appending an entry adds its amount to its own account's entry sum and to
/// no other.
pub(crate) proof fn lemma_sum_entries_push(s: Seq<Entry>, e: Entry, id: i64)
    ensures
        sum_entries_for(s.push(e), id) == sum_entries_for(s, id) + if e.account_id == id {
            e.amount as int
        } else {
            0
        },
{
    assert(s.push(e).drop_last() =~= s);
}

/// Appending a transfer adds its signed contribution to the net delta.
pub(crate) proof fn lemma_net_delta_push(s: Seq<Transfer>, t: Transfer, id: i64)
    ensures
        net_delta(s.push(t), id) == net_delta(s, id) + transfer_delta(t, id),
{
    assert(s.push(t).drop_last() =~= s);
}

/// `apply_delta` keeps the table's length and rewrites exactly the matching
/// rows, leaving every other row untouched.
pub(crate) proof fn lemma_apply_delta_pointwise(s: Seq<Account>, id: i64, delta: int)
    ensures
        apply_delta(s, id, delta).len() == s.len(),
        forall|i: int|
            0 <= i < s.len() ==> apply_delta(s, id, delta)[i] == (if s[i].id == id {
                rebalanced(s[i], delta)
            } else {
                s[i]
            }),
    decreases s.len(),
{
    if s.len() > 0 {
        lemma_apply_delta_pointwise(s.drop_last(), id, delta);
        assert forall|i: int| 0 <= i < s.len() implies apply_delta(s, id, delta)[i] == (if s[i].id
            == id {
            rebalanced(s[i], delta)
        } else {
            s[i]
        }) by {
            if i < s.len() - 1 {
                assert(s.drop_last()[i] == s[i]);
                assert(apply_delta(s, id, delta)[i] == apply_delta(s.drop_last(), id, delta)[i]);
            } else {
                assert(s[i] == s.last());
            }
        }
    }
}

/// `with_balance` keeps the table's length and rewrites exactly the matching
/// rows.
pub(crate) proof fn lemma_with_balance_pointwise(s: Seq<Account>, id: i64, balance: i64)
    ensures
        with_balance(s, id, balance).len() == s.len(),
        forall|i: int|
            0 <= i < s.len() ==> with_balance(s, id, balance)[i] == (if s[i].id == id {
                Account {
                    id: s[i].id,
                    owner: s[i].owner,
                    balance: balance,
                    currency: s[i].currency,
                    created_at: s[i].created_at,
                }
            } else {
                s[i]
            }),
    decreases s.len(),
{
    if s.len() > 0 {
        lemma_with_balance_pointwise(s.drop_last(), id, balance);
        assert forall|i: int| 0 <= i < s.len() implies with_balance(s, id, balance)[i] == (if s[i].id
            == id {
            Account {
                id: s[i].id,
                owner: s[i].owner,
                balance: balance,
                currency: s[i].currency,
                created_at: s[i].created_at,
            }
        } else {
            s[i]
        }) by {
            if i < s.len() - 1 {
                assert(s.drop_last()[i] == s[i]);
                assert(with_balance(s, id, balance)[i] == with_balance(s.drop_last(), id, balance)[i]);
            } else {
                assert(s[i] == s.last());
            }
        }
    }
}

/// Shifting one account's balance relates the lookups of the old and new
/// tables pointwise on every id.
pub(crate) proof fn lemma_lookup_apply_delta(s: Seq<Account>, id: i64, delta: int, q: i64)
    ensures
        lookup_account(apply_delta(s, id, delta), q) == match lookup_account(s, q) {
            Some(a) => Some(
                if q == id {
                    rebalanced(a, delta)
                } else {
                    a
                },
            ),
            None => None::<Account>,
        },
    decreases s.len(),
{
    if s.len() > 0 {
        let mapped = if s.last().id == id {
            rebalanced(s.last(), delta)
        } else {
            s.last()
        };
        lemma_lookup_account_push(apply_delta(s.drop_last(), id, delta), mapped, q);
        lemma_lookup_apply_delta(s.drop_last(), id, delta, q);
    }
}

/// Replacing one account's balance relates the lookups likewise.
pub(crate) proof fn lemma_lookup_with_balance(s: Seq<Account>, id: i64, balance: i64, q: i64)
    ensures
        lookup_account(with_balance(s, id, balance), q) == match lookup_account(s, q) {
            Some(a) => Some(
                if q == id {
                    Account {
                        id: a.id,
                        owner: a.owner,
                        balance: balance,
                        currency: a.currency,
                        created_at: a.created_at,
                    }
                } else {
                    a
                },
            ),
            None => None::<Account>,
        },
    decreases s.len(),
{
    if s.len() > 0 {
        let mapped = if s.last().id == id {
            Account {
                id: s.last().id,
                owner: s.last().owner,
                balance: balance,
                currency: s.last().currency,
                created_at: s.last().created_at,
            }
        } else {
            s.last()
        };
        lemma_lookup_account_push(with_balance(s.drop_last(), id, balance), mapped, q);
        lemma_lookup_with_balance(s.drop_last(), id, balance, q);
    }
}

/// A table without the target id is unchanged by `apply_delta`.
pub(crate) proof fn lemma_apply_delta_absent(s: Seq<Account>, id: i64, delta: int)
    requires
        forall|i: int| 0 <= i < s.len() ==> s[i].id != id,
    ensures
        apply_delta(s, id, delta) =~= s,
    decreases s.len(),
{
    if s.len() > 0 {
        assert forall|i: int| 0 <= i < s.drop_last().len() implies s.drop_last()[i].id != id by {
            assert(s.drop_last()[i] == s[i]);
        }
        lemma_apply_delta_absent(s.drop_last(), id, delta);
    }
}

/// Balance shifts on two distinct ids commute.
pub(crate) proof fn lemma_apply_delta_commute(s: Seq<Account>, id1: i64, d1: int, id2: i64, d2: int)
    requires
        id1 != id2,
    ensures
        apply_delta(apply_delta(s, id1, d1), id2, d2) =~= apply_delta(
            apply_delta(s, id2, d2),
            id1,
            d1,
        ),
{
    lemma_apply_delta_pointwise(s, id1, d1);
    lemma_apply_delta_pointwise(s, id2, d2);
    lemma_apply_delta_pointwise(apply_delta(s, id1, d1), id2, d2);
    lemma_apply_delta_pointwise(apply_delta(s, id2, d2), id1, d1);
}

/// No entry against an id means its entry sum is zero.
pub(crate) proof fn lemma_sum_entries_absent(s: Seq<Entry>, id: i64)
    requires
        forall|i: int| 0 <= i < s.len() ==> s[i].account_id != id,
    ensures
        sum_entries_for(s, id) == 0,
    decreases s.len(),
{
    if s.len() > 0 {
        assert forall|i: int| 0 <= i < s.drop_last().len() implies s.drop_last()[i].account_id
            != id by {
            assert(s.drop_last()[i] == s[i]);
        }
        lemma_sum_entries_absent(s.drop_last(), id);
    }
}

/// Shifting one account's balance by `delta` shifts the total by `delta` —
/// when the account exists, ids are unique, and the shifted balance fits.
pub(crate) proof fn lemma_sum_apply_delta(s: Seq<Account>, id: i64, delta: int)
    requires
        accounts_ascending(s),
        has_account(s, id) ==> i64::MIN <= balance_of(s, id) + delta <= i64::MAX,
    ensures
        sum_balances(apply_delta(s, id, delta)) == sum_balances(s) + if has_account(s, id) {
            delta
        } else {
            0
        },
    decreases s.len(),
{
    if s.len() > 0 {
        let rest = s.drop_last();
        assert(forall|i: int, j: int|
            0 <= i < j < rest.len() ==> #[trigger] rest[i].id < #[trigger] rest[j].id);
        if s.last().id == id {
            assert forall|i: int| 0 <= i < rest.len() implies rest[i].id != id by {
                assert(rest[i] == s[i]);
                assert(s[i].id < s[s.len() - 1].id);
            }
            lemma_apply_delta_absent(rest, id, delta);
            lemma_sum_balances_push(apply_delta(rest, id, delta), rebalanced(s.last(), delta));
        } else {
            lemma_sum_apply_delta(rest, id, delta);
            lemma_sum_balances_push(
                apply_delta(rest, id, delta),
                if s.last().id == id {
                    rebalanced(s.last(), delta)
                } else {
                    s.last()
                },
            );
        }
    }
}

/// The account table with every row of the given id removed (at most one in
/// a well-formed table).
pub open spec fn without_account(s: Seq<Account>, id: i64) -> Seq<Account>
    decreases s.len(),
{
    if s.len() == 0 {
        s
    } else if s.last().id == id {
        without_account(s.drop_last(), id)
    } else {
        without_account(s.drop_last(), id).push(s.last())
    }
}

/// A table without the target id is unchanged by `without_account`.
pub(crate) proof fn lemma_without_account_absent(s: Seq<Account>, id: i64)
    requires
        forall|i: int| 0 <= i < s.len() ==> s[i].id != id,
    ensures
        without_account(s, id) =~= s,
    decreases s.len(),
{
    if s.len() > 0 {
        assert forall|i: int| 0 <= i < s.drop_last().len() implies s.drop_last()[i].id != id by {
            assert(s.drop_last()[i] == s[i]);
        }
        lemma_without_account_absent(s.drop_last(), id);
    }
}

/// When exactly the row at `i` carries the id, `without_account` is removal
/// at `i`.
pub(crate) proof fn lemma_without_account_remove(s: Seq<Account>, id: i64, i: int)
    requires
        0 <= i < s.len(),
        s[i].id == id,
        forall|j: int| 0 <= j < s.len() && j != i ==> s[j].id != id,
    ensures
        without_account(s, id) =~= s.remove(i),
    decreases s.len(),
{
    if i == s.len() - 1 {
        assert forall|j: int| 0 <= j < s.drop_last().len() implies s.drop_last()[j].id != id by {
            assert(s.drop_last()[j] == s[j]);
        }
        lemma_without_account_absent(s.drop_last(), id);
        assert(s.remove(i) =~= s.drop_last());
    } else {
        assert(s.drop_last()[i] == s[i]);
        assert forall|j: int|
            0 <= j < s.drop_last().len() && j != i implies s.drop_last()[j].id != id by {
            assert(s.drop_last()[j] == s[j]);
        }
        lemma_without_account_remove(s.drop_last(), id, i);
        assert(without_account(s, id) =~= s.remove(i)) by {
            assert(s.last().id != id);
            assert forall|k: int| 0 <= k < s.len() - 1 implies s.remove(i)[k] == without_account(
                s,
                id,
            )[k] by {
                if k < s.drop_last().remove(i).len() {
                    assert(without_account(s, id)[k] == s.drop_last().remove(i)[k]);
                    if k < i {
                        assert(s.remove(i)[k] == s[k]);
                        assert(s.drop_last().remove(i)[k] == s.drop_last()[k]);
                    } else {
                        assert(s.remove(i)[k] == s[k + 1]);
                        assert(s.drop_last().remove(i)[k] == s.drop_last()[k + 1]);
                    }
                } else {
                    assert(k == s.len() - 2);
                    assert(without_account(s, id)[k] == s.last());
                    assert(s.remove(i)[k] == s[k + 1]);
                }
            }
        }
    }
}

/// Deleting an id from the table: lookups of that id find nothing, every
/// other lookup is unchanged.
pub(crate) proof fn lemma_lookup_without_account(s: Seq<Account>, id: i64, q: i64)
    ensures
        lookup_account(without_account(s, id), q) == if q == id {
            None::<Account>
        } else {
            lookup_account(s, q)
        },
    decreases s.len(),
{
    if s.len() > 0 {
        lemma_lookup_without_account(s.drop_last(), id, q);
        if s.last().id != id {
            lemma_lookup_account_push(without_account(s.drop_last(), id), s.last(), q);
        }
    }
}

/// The entry rows recorded against one account, in table (id) order.
pub open spec fn entries_for(s: Seq<Entry>, id: i64) -> Seq<Entry>
    decreases s.len(),
{
    if s.len() == 0 {
        s
    } else if s.last().account_id == id {
        entries_for(s.drop_last(), id).push(s.last())
    } else {
        entries_for(s.drop_last(), id)
    }
}

/// The transfer rows touching one account on either side, in table order.
pub open spec fn transfers_for(s: Seq<Transfer>, id: i64) -> Seq<Transfer>
    decreases s.len(),
{
    if s.len() == 0 {
        s
    } else if s.last().from_account_id == id || s.last().to_account_id == id {
        transfers_for(s.drop_last(), id).push(s.last())
    } else {
        transfers_for(s.drop_last(), id)
    }
}

/// The committed state of the store: three tables in insertion order, the
/// store-assigned id counters, and the stamp new rows are created with.
pub struct Ledger {
    pub accounts: Vec<Account>,
    pub entries: Vec<Entry>,
    pub transfers: Vec<Transfer>,
    pub next_account_id: i64,
    pub next_entry_id: i64,
    pub next_transfer_id: i64,
    pub now: i64,
}

impl Ledger {
    /// Well-formedness: ascending ids below their counters, and referential
    /// integrity — every entry and transfer points at existing accounts, and
    /// every transfer moves a positive amount between two distinct accounts.
    pub open spec fn wf(&self) -> bool {
        &&& 1 <= self.next_account_id
        &&& 1 <= self.next_entry_id
        &&& 1 <= self.next_transfer_id
        &&& accounts_ascending(self.accounts@)
        &&& entries_ascending(self.entries@)
        &&& transfers_ascending(self.transfers@)
        &&& forall|i: int|
            0 <= i < self.accounts@.len() ==> 1 <= #[trigger] self.accounts@[i].id
                < self.next_account_id
        &&& forall|i: int|
            0 <= i < self.entries@.len() ==> 1 <= #[trigger] self.entries@[i].id
                < self.next_entry_id
        &&& forall|i: int|
            0 <= i < self.transfers@.len() ==> 1 <= #[trigger] self.transfers@[i].id
                < self.next_transfer_id
        &&& forall|i: int|
            0 <= i < self.entries@.len() ==> has_account(
                self.accounts@,
                #[trigger] self.entries@[i].account_id,
            )
        &&& forall|i: int|
            0 <= i < self.transfers@.len() ==> {
                let t = #[trigger] self.transfers@[i];
                &&& has_account(self.accounts@, t.from_account_id)
                &&& has_account(self.accounts@, t.to_account_id)
                &&& t.from_account_id != t.to_account_id
                &&& t.amount > 0
            }
    }

    /// Entry-balance consistency: every account's balance equals the sum of
    /// the entries recorded against it. Holds of every ledger whose accounts
    /// were opened at balance zero and whose balances were mutated only by
    /// the transfer engine.
    pub open spec fn entry_balanced(&self) -> bool {
        forall|i: int|
            0 <= i < self.accounts@.len() ==> (#[trigger] self.accounts@[i]).balance
                == sum_entries_for(self.entries@, self.accounts@[i].id)
    }

    /// An empty store: no rows, counters at 1, stamping new rows with `now`.
    pub fn new(now: i64) -> (r: Ledger)
        ensures
            r.wf(),
            r.entry_balanced(),
            r.accounts@ =~= Seq::<Account>::empty(),
            r.entries@ =~= Seq::<Entry>::empty(),
            r.transfers@ =~= Seq::<Transfer>::empty(),
            r.next_account_id == 1,
            r.next_entry_id == 1,
            r.next_transfer_id == 1,
            r.now == now,
    {
        Ledger {
            accounts: Vec::new(),
            entries: Vec::new(),
            transfers: Vec::new(),
            next_account_id: 1,
            next_entry_id: 1,
            next_transfer_id: 1,
            now: now,
        }
    }

    /// The index of the account row with the given id, agreeing with
    /// `lookup_account`.
    fn find_account(&self, id: i64) -> (r: Option<usize>)
        ensures
            match r {
                Some(i) => i < self.accounts@.len() && self.accounts@[i as int].id == id
                    && lookup_account(self.accounts@, id) == Some(self.accounts@[i as int]),
                None => lookup_account(self.accounts@, id) is None,
            },
    {
        let s = Ghost(self.accounts@);
        proof {
            assert(s@.take(s@.len() as int) =~= s@);
        }
        let mut i: usize = self.accounts.len();
        while i > 0
            invariant
                i <= s@.len(),
                s@ == self.accounts@,
                lookup_account(s@, id) == lookup_account(s@.take(i as int), id),
            decreases i,
        {
            if self.accounts[i - 1].id == id {
                proof {
                    assert(s@.take(i as int).last() == s@[i as int - 1]);
                }
                return Some(i - 1);
            }
            proof {
                assert(s@.take(i as int).drop_last() =~= s@.take(i as int - 1));
            }
            i = i - 1;
        }
        None
    }

    /// Creates an account with a store-assigned id, stamped with the current
    /// time. Callers following the ledger's account-opening rule pass a zero
    /// opening balance, which keeps entry-balance consistency; the parameter
    /// is honored as given, as a raw insert would honor it.
    pub fn create_account(&mut self, arg: CreateAccountParams) -> (r: Account)
        requires
            old(self).wf(),
            old(self).next_account_id < i64::MAX,
        ensures
            final(self).wf(),
            r.id == old(self).next_account_id,
            r.owner@ == arg.owner@,
            r.balance == arg.balance,
            r.currency@ == arg.currency@,
            r.created_at == old(self).now,
            final(self).accounts@ == old(self).accounts@.push(r),
            final(self).entries@ == old(self).entries@,
            final(self).transfers@ == old(self).transfers@,
            final(self).next_account_id == old(self).next_account_id + 1,
            final(self).next_entry_id == old(self).next_entry_id,
            final(self).next_transfer_id == old(self).next_transfer_id,
            final(self).now == old(self).now,
            old(self).entry_balanced() && arg.balance == 0 ==> final(self).entry_balanced(),
    {
        let account = Account {
            id: self.next_account_id,
            owner: arg.owner,
            balance: arg.balance,
            currency: arg.currency,
            created_at: self.now,
        };
        let r = account.duplicate();
        let ghost pre = *self;
        self.accounts.push(account);
        self.next_account_id = self.next_account_id + 1;
        proof {
            let s = pre.accounts@;
            let a = r;
            assert forall|q: i64| has_account(s, q) implies has_account(s.push(a), q) by {
                lemma_lookup_account_push(s, a, q);
            }
            assert(self.wf());
            if pre.entry_balanced() && arg.balance == 0 {
                assert forall|i: int|
                    0 <= i < self.accounts@.len() implies (#[trigger] self.accounts@[i]).balance
                    == sum_entries_for(self.entries@, self.accounts@[i].id) by {
                    if i < s.len() {
                        assert(self.accounts@[i] == s[i]);
                    } else {
                        assert forall|j: int|
                            0 <= j < self.entries@.len() implies self.entries@[j].account_id
                            != a.id by {
                            lemma_lookup_account_index(s, self.entries@[j].account_id);
                        }
                        lemma_sum_entries_absent(self.entries@, a.id);
                    }
                }
            }
        }
        r
    }

    /// Reads the account row with the given id; `NotFound` exactly when no
    /// row has it.
    pub fn get_account(&self, id: i64) -> (r: Result<Account, LedgerError>)
        ensures
            match lookup_account(self.accounts@, id) {
                Some(a) => r == Ok::<Account, LedgerError>(a),
                None => r == Err::<Account, LedgerError>(LedgerError::NotFound),
            },
    {
        match self.find_account(id) {
            Some(i) => Ok(self.accounts[i].duplicate()),
            None => Err(LedgerError::NotFound),
        }
    }

    /// Reads the account row while, in the real store, acquiring an exclusive
    /// row lock scoped to the enclosing transaction. The committed state it
    /// returns is the same read; the engine's lock-ordering discipline
    /// governs the order of these calls.
    pub fn get_account_for_update(&self, id: i64) -> (r: Result<Account, LedgerError>)
        ensures
            match lookup_account(self.accounts@, id) {
                Some(a) => r == Ok::<Account, LedgerError>(a),
                None => r == Err::<Account, LedgerError>(LedgerError::NotFound),
            },
    {
        self.get_account(id)
    }

    /// Lists accounts in ascending id order, `offset` rows in, at most
    /// `limit` rows out. A negative limit or offset is refused as
    /// `InvalidArgument`, as the store refuses a negative row count.
    pub fn list_accounts(&self, arg: ListAccountsParams) -> (r: Result<Vec<Account>, LedgerError>)
        ensures
            arg.limit < 0 || arg.offset < 0 ==> r == Err::<Vec<Account>, LedgerError>(
                LedgerError::InvalidArgument,
            ),
            arg.limit >= 0 && arg.offset >= 0 ==> ({
                let len = self.accounts@.len() as int;
                let lo = if arg.offset as int <= len {
                    arg.offset as int
                } else {
                    len
                };
                let hi = if arg.offset as int + arg.limit as int <= len {
                    arg.offset as int + arg.limit as int
                } else {
                    len
                };
                r is Ok && r->Ok_0@ == self.accounts@.subrange(lo, hi)
            }),
    {
        if arg.limit < 0 || arg.offset < 0 {
            return Err(LedgerError::InvalidArgument);
        }
        let len = self.accounts.len();
        let lo: usize = if arg.offset as u64 >= len as u64 {
            len
        } else {
            arg.offset as usize
        };
        let hi: usize = if arg.limit as u64 >= (len - lo) as u64 {
            len
        } else {
            lo + arg.limit as usize
        };
        let mut out: Vec<Account> = Vec::new();
        let mut i: usize = lo;
        while i < hi
            invariant
                lo <= i <= hi <= self.accounts@.len(),
                out@ =~= self.accounts@.subrange(lo as int, i as int),
            decreases hi - i,
        {
            out.push(self.accounts[i].duplicate());
            i = i + 1;
        }
        Ok(out)
    }

    /// Applies `balance += amount` to one account row and returns the
    /// updated row; `NotFound` exactly when the row is absent,
    /// `ConstraintViolation` exactly when the new balance leaves the store's
    /// integer range. In the real store the caller holds the row lock from
    /// `get_account_for_update` (or relies on this single statement's own
    /// atomicity) so no concurrent read-modify-write is lost.
    pub fn add_account_balance(&mut self, arg: AddAccountBalanceParams) -> (r: Result<
        Account,
        LedgerError,
    >)
        requires
            old(self).wf(),
        ensures
            final(self).wf(),
            final(self).entries@ == old(self).entries@,
            final(self).transfers@ == old(self).transfers@,
            final(self).next_account_id == old(self).next_account_id,
            final(self).next_entry_id == old(self).next_entry_id,
            final(self).next_transfer_id == old(self).next_transfer_id,
            final(self).now == old(self).now,
            match lookup_account(old(self).accounts@, arg.id) {
                None => r == Err::<Account, LedgerError>(LedgerError::NotFound)
                    && final(self).accounts@ == old(self).accounts@,
                Some(a) => {
                    if i64::MIN <= a.balance + arg.amount <= i64::MAX {
                        &&& r == Ok::<Account, LedgerError>(rebalanced(a, arg.amount as int))
                        &&& final(self).accounts@ == apply_delta(
                            old(self).accounts@,
                            arg.id,
                            arg.amount as int,
                        )
                        &&& sum_balances(final(self).accounts@) == sum_balances(old(self).accounts@)
                            + arg.amount
                        &&& forall|q: i64|
                            balance_of(final(self).accounts@, q) == balance_of(
                                old(self).accounts@,
                                q,
                            ) + if q == arg.id {
                                arg.amount as int
                            } else {
                                0
                            }
                        &&& forall|q: i64|
                            has_account(final(self).accounts@, q) == has_account(
                                old(self).accounts@,
                                q,
                            )
                    } else {
                        r == Err::<Account, LedgerError>(LedgerError::ConstraintViolation)
                            && final(self).accounts@ == old(self).accounts@
                    }
                },
            },
    {
        match self.find_account(arg.id) {
            None => Err(LedgerError::NotFound),
            Some(i) => {
                let bal = self.accounts[i].balance;
                if (arg.amount >= 0 && bal > i64::MAX - arg.amount) || (arg.amount < 0 && bal
                    < i64::MIN - arg.amount) {
                    Err(LedgerError::ConstraintViolation)
                } else {
                    let ghost pre = *self;
                    self.accounts[i].balance = bal + arg.amount;
                    let updated = self.accounts[i].duplicate();
                    proof {
                        let s = pre.accounts@;
                        let d = arg.amount as int;
                        lemma_apply_delta_pointwise(s, arg.id, d);
                        assert forall|j: int|
                            0 <= j < s.len() && j != i implies s[j].id != arg.id by {
                            if j < i {
                                assert(s[j].id < s[i as int].id);
                            } else {
                                assert(s[i as int].id < s[j].id);
                            }
                        }
                        assert(self.accounts@ =~= apply_delta(s, arg.id, d));
                        assert(lookup_account(s, arg.id) == Some(s[i as int]));
                        lemma_sum_apply_delta(s, arg.id, d);
                        assert forall|q: i64|
                            balance_of(self.accounts@, q) == balance_of(s, q) + (if q == arg.id {
                                d
                            } else {
                                0
                            }) by {
                            lemma_lookup_apply_delta(s, arg.id, d, q);
                        }
                        assert forall|q: i64|
                            has_account(self.accounts@, q) == has_account(s, q) by {
                            lemma_lookup_apply_delta(s, arg.id, d, q);
                        }
                        assert(self.wf());
                    }
                    Ok(updated)
                }
            },
        }
    }

    /// Sets one account's balance outright inside the caller's transaction
    /// and returns the updated row; `NotFound` exactly when the row is
    /// absent. A raw repository write: it bypasses the entry trail, so only
    /// the engine may use it for balance changes, paired with the entries it
    /// records.
    pub fn update_account_tx(&mut self, id: i64, balance: i64) -> (r: Result<Account, LedgerError>)
        requires
            old(self).wf(),
        ensures
            final(self).wf(),
            final(self).entries@ == old(self).entries@,
            final(self).transfers@ == old(self).transfers@,
            final(self).next_account_id == old(self).next_account_id,
            final(self).next_entry_id == old(self).next_entry_id,
            final(self).next_transfer_id == old(self).next_transfer_id,
            final(self).now == old(self).now,
            match lookup_account(old(self).accounts@, id) {
                None => r == Err::<Account, LedgerError>(LedgerError::NotFound)
                    && final(self).accounts@ == old(self).accounts@,
                Some(a) => {
                    &&& r == Ok::<Account, LedgerError>(
                        Account {
                            id: a.id,
                            owner: a.owner,
                            balance: balance,
                            currency: a.currency,
                            created_at: a.created_at,
                        },
                    )
                    &&& final(self).accounts@ == with_balance(old(self).accounts@, id, balance)
                    &&& forall|q: i64|
                        has_account(final(self).accounts@, q) == has_account(
                            old(self).accounts@,
                            q,
                        )
                },
            },
    {
        match self.find_account(id) {
            None => Err(LedgerError::NotFound),
            Some(i) => {
                let ghost pre = *self;
                self.accounts[i].balance = balance;
                let updated = self.accounts[i].duplicate();
                proof {
                    let s = pre.accounts@;
                    lemma_with_balance_pointwise(s, id, balance);
                    assert forall|j: int| 0 <= j < s.len() && j != i implies s[j].id != id by {
                        if j < i {
                            assert(s[j].id < s[i as int].id);
                        } else {
                            assert(s[i as int].id < s[j].id);
                        }
                    }
                    assert(self.accounts@ =~= with_balance(s, id, balance));
                    assert(lookup_account(s, id) == Some(s[i as int]));
                    assert forall|q: i64|
                        has_account(self.accounts@, q) == has_account(s, q) by {
                        lemma_lookup_with_balance(s, id, balance, q);
                    }
                    assert(self.wf());
                }
                Ok(updated)
            },
        }
    }

    /// Sets one account's balance as its own atomic unit of work; the same
    /// state change as `update_account_tx`, committed by itself.
    pub fn update_account(&mut self, id: i64, balance: i64) -> (r: Result<Account, LedgerError>)
        requires
            old(self).wf(),
        ensures
            final(self).wf(),
            final(self).entries@ == old(self).entries@,
            final(self).transfers@ == old(self).transfers@,
            final(self).next_account_id == old(self).next_account_id,
            final(self).next_entry_id == old(self).next_entry_id,
            final(self).next_transfer_id == old(self).next_transfer_id,
            final(self).now == old(self).now,
            match lookup_account(old(self).accounts@, id) {
                None => r == Err::<Account, LedgerError>(LedgerError::NotFound)
                    && final(self).accounts@ == old(self).accounts@,
                Some(a) => {
                    &&& r == Ok::<Account, LedgerError>(
                        Account {
                            id: a.id,
                            owner: a.owner,
                            balance: balance,
                            currency: a.currency,
                            created_at: a.created_at,
                        },
                    )
                    &&& final(self).accounts@ == with_balance(old(self).accounts@, id, balance)
                },
            },
    {
        self.update_account_tx(id, balance)
    }

    /// Whether any entry row references the account id.
    fn entry_references(&self, id: i64) -> (r: bool)
        ensures
            r == exists|i: int| 0 <= i < self.entries@.len() && self.entries@[i].account_id == id,
    {
        let mut i: usize = 0;
        while i < self.entries.len()
            invariant
                i <= self.entries@.len(),
                forall|j: int| 0 <= j < i ==> self.entries@[j].account_id != id,
            decreases self.entries@.len() - i,
        {
            if self.entries[i].account_id == id {
                return true;
            }
            i = i + 1;
        }
        false
    }

    /// Whether any transfer row references the account id on either side.
    fn transfer_references(&self, id: i64) -> (r: bool)
        ensures
            r == exists|i: int|
                0 <= i < self.transfers@.len() && (self.transfers@[i].from_account_id == id
                    || self.transfers@[i].to_account_id == id),
    {
        let mut i: usize = 0;
        while i < self.transfers.len()
            invariant
                i <= self.transfers@.len(),
                forall|j: int|
                    0 <= j < i ==> self.transfers@[j].from_account_id != id
                        && self.transfers@[j].to_account_id != id,
            decreases self.transfers@.len() - i,
        {
            if self.transfers[i].from_account_id == id || self.transfers[i].to_account_id == id {
                return true;
            }
            i = i + 1;
        }
        false
    }

    /// Deletes the account row with the given id. Deleting a row that
    /// entries or transfers still reference is refused as a
    /// `ConstraintViolation` (the store's foreign keys); deleting an absent
    /// id is a no-op, as a bare delete statement is. Not safe to combine
    /// with in-flight transfers on the same account.
    pub fn delete_account(&mut self, id: i64) -> (r: Result<(), LedgerError>)
        requires
            old(self).wf(),
        ensures
            final(self).wf(),
            final(self).entries@ == old(self).entries@,
            final(self).transfers@ == old(self).transfers@,
            final(self).next_account_id == old(self).next_account_id,
            final(self).next_entry_id == old(self).next_entry_id,
            final(self).next_transfer_id == old(self).next_transfer_id,
            final(self).now == old(self).now,
            ({
                let referenced = (exists|i: int|
                    0 <= i < old(self).entries@.len() && old(self).entries@[i].account_id == id)
                    || (exists|i: int|
                    0 <= i < old(self).transfers@.len() && (old(
                        self,
                    ).transfers@[i].from_account_id == id || old(self).transfers@[i].to_account_id
                        == id));
                if has_account(old(self).accounts@, id) && referenced {
                    r == Err::<(), LedgerError>(LedgerError::ConstraintViolation)
                        && final(self).accounts@ == old(self).accounts@
                } else {
                    r == Ok::<(), LedgerError>(()) && final(self).accounts@ == without_account(
                        old(self).accounts@,
                        id,
                    )
                }
            }),
    {
        match self.find_account(id) {
            None => {
                proof {
                    lemma_lookup_account_index(self.accounts@, id);
                    lemma_without_account_absent(self.accounts@, id);
                }
                Ok(())
            },
            Some(i) => {
                if self.entry_references(id) || self.transfer_references(id) {
                    return Err(LedgerError::ConstraintViolation);
                }
                let ghost pre = *self;
                self.accounts.remove(i);
                proof {
                    let s = pre.accounts@;
                    assert forall|j: int| 0 <= j < s.len() && j != i implies s[j].id != id by {
                        if j < i {
                            assert(s[j].id < s[i as int].id);
                        } else {
                            assert(s[i as int].id < s[j].id);
                        }
                    }
                    lemma_without_account_remove(s, id, i as int);
                    assert forall|q: i64|
                        q != id && has_account(s, q) implies has_account(
                        self.accounts@,
                        q,
                    ) by {
                        lemma_lookup_without_account(s, id, q);
                    }
                    assert forall|j: int|
                        0 <= j < self.entries@.len() implies has_account(
                        self.accounts@,
                        #[trigger] self.entries@[j].account_id,
                    ) by {
                        assert(self.entries@[j].account_id != id);
                    }
                    assert(self.wf());
                }
                Ok(())
            },
        }
    }

    /// The index of the entry row with the given id, agreeing with
    /// `lookup_entry`.
    fn find_entry(&self, id: i64) -> (r: Option<usize>)
        ensures
            match r {
                Some(i) => i < self.entries@.len() && self.entries@[i as int].id == id
                    && lookup_entry(self.entries@, id) == Some(self.entries@[i as int]),
                None => lookup_entry(self.entries@, id) is None,
            },
    {
        let s = Ghost(self.entries@);
        proof {
            assert(s@.take(s@.len() as int) =~= s@);
        }
        let mut i: usize = self.entries.len();
        while i > 0
            invariant
                i <= s@.len(),
                s@ == self.entries@,
                lookup_entry(s@, id) == lookup_entry(s@.take(i as int), id),
            decreases i,
        {
            if self.entries[i - 1].id == id {
                proof {
                    assert(s@.take(i as int).last() == s@[i as int - 1]);
                }
                return Some(i - 1);
            }
            proof {
                assert(s@.take(i as int).drop_last() =~= s@.take(i as int - 1));
            }
            i = i - 1;
        }
        None
    }

    /// Appends an entry against an account inside the caller's transaction;
    /// `NotFound` exactly when the referenced account is absent.
    pub fn create_entry(&mut self, arg: CreateEntryParams) -> (r: Result<Entry, LedgerError>)
        requires
            old(self).wf(),
            old(self).next_entry_id < i64::MAX,
        ensures
            final(self).wf(),
            final(self).accounts@ == old(self).accounts@,
            final(self).transfers@ == old(self).transfers@,
            final(self).next_account_id == old(self).next_account_id,
            final(self).next_transfer_id == old(self).next_transfer_id,
            final(self).now == old(self).now,
            if has_account(old(self).accounts@, arg.account_id) {
                &&& r == Ok::<Entry, LedgerError>(
                    Entry {
                        id: old(self).next_entry_id,
                        account_id: arg.account_id,
                        amount: arg.amount,
                        created_at: old(self).now,
                    },
                )
                &&& final(self).entries@ == old(self).entries@.push(
                    Entry {
                        id: old(self).next_entry_id,
                        account_id: arg.account_id,
                        amount: arg.amount,
                        created_at: old(self).now,
                    },
                )
                &&& final(self).next_entry_id == old(self).next_entry_id + 1
            } else {
                &&& r == Err::<Entry, LedgerError>(LedgerError::NotFound)
                &&& final(self).entries@ == old(self).entries@
                &&& final(self).next_entry_id == old(self).next_entry_id
            },
    {
        match self.find_account(arg.account_id) {
            None => Err(LedgerError::NotFound),
            Some(_) => {
                let entry = Entry {
                    id: self.next_entry_id,
                    account_id: arg.account_id,
                    amount: arg.amount,
                    created_at: self.now,
                };
                self.entries.push(entry);
                self.next_entry_id = self.next_entry_id + 1;
                assert(self.wf());
                Ok(entry)
            },
        }
    }

    /// Reads the entry row with the given id; `NotFound` exactly when no row
    /// has it.
    pub fn get_entry(&self, id: i64) -> (r: Result<Entry, LedgerError>)
        ensures
            match lookup_entry(self.entries@, id) {
                Some(e) => r == Ok::<Entry, LedgerError>(e),
                None => r == Err::<Entry, LedgerError>(LedgerError::NotFound),
            },
    {
        match self.find_entry(id) {
            Some(i) => Ok(self.entries[i]),
            None => Err(LedgerError::NotFound),
        }
    }

    /// Lists the entries recorded against one account, in ascending id
    /// order.
    pub fn list_entries(&self, account_id: i64) -> (r: Vec<Entry>)
        ensures
            r@ == entries_for(self.entries@, account_id),
    {
        let ghost s = self.entries@;
        let mut out: Vec<Entry> = Vec::new();
        let mut i: usize = 0;
        while i < self.entries.len()
            invariant
                i <= s.len(),
                s == self.entries@,
                out@ =~= entries_for(s.take(i as int), account_id),
            decreases s.len() - i,
        {
            proof {
                assert(s.take(i as int + 1).drop_last() =~= s.take(i as int));
                assert(s.take(i as int + 1).last() == s[i as int]);
            }
            if self.entries[i].account_id == account_id {
                out.push(self.entries[i]);
            }
            i = i + 1;
        }
        proof {
            assert(s.take(s.len() as int) =~= s);
        }
        out
    }

    /// The index of the transfer row with the given id, agreeing with
    /// `lookup_transfer`.
    fn find_transfer(&self, id: i64) -> (r: Option<usize>)
        ensures
            match r {
                Some(i) => i < self.transfers@.len() && self.transfers@[i as int].id == id
                    && lookup_transfer(self.transfers@, id) == Some(self.transfers@[i as int]),
                None => lookup_transfer(self.transfers@, id) is None,
            },
    {
        let s = Ghost(self.transfers@);
        proof {
            assert(s@.take(s@.len() as int) =~= s@);
        }
        let mut i: usize = self.transfers.len();
        while i > 0
            invariant
                i <= s@.len(),
                s@ == self.transfers@,
                lookup_transfer(s@, id) == lookup_transfer(s@.take(i as int), id),
            decreases i,
        {
            if self.transfers[i - 1].id == id {
                proof {
                    assert(s@.take(i as int).last() == s@[i as int - 1]);
                }
                return Some(i - 1);
            }
            proof {
                assert(s@.take(i as int).drop_last() =~= s@.take(i as int - 1));
            }
            i = i - 1;
        }
        None
    }

    /// Appends a transfer record inside the caller's transaction. A
    /// non-positive amount or a self-transfer breaks the table's own checks
    /// (`ConstraintViolation`); an absent account breaks its references
    /// (`NotFound`); each exactly when stated.
    pub fn create_transfer(&mut self, arg: CreateTransferParams) -> (r: Result<
        Transfer,
        LedgerError,
    >)
        requires
            old(self).wf(),
            old(self).next_transfer_id < i64::MAX,
        ensures
            final(self).wf(),
            final(self).accounts@ == old(self).accounts@,
            final(self).entries@ == old(self).entries@,
            final(self).next_account_id == old(self).next_account_id,
            final(self).next_entry_id == old(self).next_entry_id,
            final(self).now == old(self).now,
            if arg.amount <= 0 || arg.from_account_id == arg.to_account_id {
                &&& r == Err::<Transfer, LedgerError>(LedgerError::ConstraintViolation)
                &&& final(self).transfers@ == old(self).transfers@
                &&& final(self).next_transfer_id == old(self).next_transfer_id
            } else if !has_account(old(self).accounts@, arg.from_account_id) || !has_account(
                old(self).accounts@,
                arg.to_account_id,
            ) {
                &&& r == Err::<Transfer, LedgerError>(LedgerError::NotFound)
                &&& final(self).transfers@ == old(self).transfers@
                &&& final(self).next_transfer_id == old(self).next_transfer_id
            } else {
                &&& r == Ok::<Transfer, LedgerError>(
                    Transfer {
                        id: old(self).next_transfer_id,
                        from_account_id: arg.from_account_id,
                        to_account_id: arg.to_account_id,
                        amount: arg.amount,
                        created_at: old(self).now,
                    },
                )
                &&& final(self).transfers@ == old(self).transfers@.push(
                    Transfer {
                        id: old(self).next_transfer_id,
                        from_account_id: arg.from_account_id,
                        to_account_id: arg.to_account_id,
                        amount: arg.amount,
                        created_at: old(self).now,
                    },
                )
                &&& final(self).next_transfer_id == old(self).next_transfer_id + 1
            },
    {
        if arg.amount <= 0 || arg.from_account_id == arg.to_account_id {
            return Err(LedgerError::ConstraintViolation);
        }
        if self.find_account(arg.from_account_id).is_none() || self.find_account(
            arg.to_account_id,
        ).is_none() {
            return Err(LedgerError::NotFound);
        }
        let transfer = Transfer {
            id: self.next_transfer_id,
            from_account_id: arg.from_account_id,
            to_account_id: arg.to_account_id,
            amount: arg.amount,
            created_at: self.now,
        };
        self.transfers.push(transfer);
        self.next_transfer_id = self.next_transfer_id + 1;
        assert(self.wf());
        Ok(transfer)
    }

    /// Reads the transfer row with the given id; `NotFound` exactly when no
    /// row has it.
    pub fn get_transfer(&self, id: i64) -> (r: Result<Transfer, LedgerError>)
        ensures
            match lookup_transfer(self.transfers@, id) {
                Some(t) => r == Ok::<Transfer, LedgerError>(t),
                None => r == Err::<Transfer, LedgerError>(LedgerError::NotFound),
            },
    {
        match self.find_transfer(id) {
            Some(i) => Ok(self.transfers[i]),
            None => Err(LedgerError::NotFound),
        }
    }

    /// Lists the transfers touching one account on either side, in ascending
    /// id order.
    pub fn list_transfers(&self, account_id: i64) -> (r: Vec<Transfer>)
        ensures
            r@ == transfers_for(self.transfers@, account_id),
    {
        let ghost s = self.transfers@;
        let mut out: Vec<Transfer> = Vec::new();
        let mut i: usize = 0;
        while i < self.transfers.len()
            invariant
                i <= s.len(),
                s == self.transfers@,
                out@ =~= transfers_for(s.take(i as int), account_id),
            decreases s.len() - i,
        {
            proof {
                assert(s.take(i as int + 1).drop_last() =~= s.take(i as int));
                assert(s.take(i as int + 1).last() == s[i as int]);
            }
            if self.transfers[i].from_account_id == account_id || self.transfers[i].to_account_id
                == account_id {
                out.push(self.transfers[i]);
            }
            i = i + 1;
        }
        proof {
            assert(s.take(s.len() as int) =~= s);
        }
        out
    }
}

} // verus!
