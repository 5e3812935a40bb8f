//! Deposit: adds funds, creating the account of an unknown client.

use std::collections::HashMap;
use vstd::prelude::*;
use crate::accounts::{
    lemma_disputed_sum_empty, lemma_disputed_sum_insert, lemma_models_insert, models,
    AccountModel, AccountState, LedgerEntry,
};
use crate::money::{in_money_range, Money};
use crate::transactions::{
    fresh_entry, CommitError, Committed, Ledger, TransactionInt, TransactionValid,
};
use crate::{TClientId, TTrxID};

verus! {

broadcast use vstd::std_specs::hash::group_hash_axioms;

/// A deposit of `amount` to the account of `client`.
#[derive(Clone, Copy, Debug, PartialEq, Eq, Structural)]
pub struct Deposit {
    pub client: TClientId,
    pub tx: TTrxID,
    pub amount: Money,
}

impl Deposit {
    /// The ledger after the deposit took effect on `l`.
    pub open spec fn applied(self, l: Ledger) -> Ledger {
        if !l.contains_key(self.client) {
            l.insert(
                self.client,
                AccountModel {
                    entries: map![self.tx => fresh_entry(self.amount)],
                    ..AccountModel::fresh(self.amount.value())
                },
            )
        } else {
            let a = l[self.client];
            l.insert(
                self.client,
                AccountModel {
                    available: a.available + self.amount.value(),
                    entries: a.entries.insert(self.tx, fresh_entry(self.amount)),
                    ..a
                },
            )
        }
    }

    /// A deposit of `amount` to `client` under id `tx`.
    pub fn test(client: TClientId, tx: TTrxID, amount: Money) -> (r: Self)
        ensures
            r == (Deposit { client, tx, amount }),
    {
        Deposit { client, tx, amount }
    }
}

impl TransactionInt for Deposit {
    open spec fn tx(&self) -> TTrxID {
        self.tx
    }

    open spec fn client(&self) -> TClientId {
        self.client
    }

    open spec fn is_invalid(&self) -> bool {
        self.amount.value() < 0
    }

    open spec fn is_warned(&self) -> bool {
        self.amount.value() == 0
    }

    /// What committing the deposit to ledger `l` returns.
    open spec fn outcome(&self, l: Ledger) -> Result<Committed, CommitError> {
        if !l.contains_key(self.client) {
            if self.amount.valid() {
                Ok(Committed::Applied)
            } else {
                Err(CommitError::OutOfRange)
            }
        } else if l[self.client].locked {
            Err(CommitError::Locked)
        } else if l[self.client].entries.contains_key(self.tx) {
            Err(CommitError::DuplicatedTx)
        } else if !self.amount.valid() || !in_money_range(
            l[self.client].available + self.amount.value(),
        ) {
            Err(CommitError::OutOfRange)
        } else {
            Ok(Committed::Applied)
        }
    }

    /// The ledger after committing the deposit to `l`.
    open spec fn next(&self, l: Ledger) -> Ledger {
        if self.outcome(l) is Ok {
            self.applied(l)
        } else {
            l
        }
    }

    /// The transaction id.
    fn id(&self) -> (r: TTrxID) {
        self.tx
    }

    /// The client id.
    fn client_id(&self) -> (r: TClientId) {
        self.client
    }

    /// A positive amount is valid, zero draws a warning, a negative amount is
    /// invalid.
    fn validate(&self) -> (r: TransactionValid)
        ensures
            r is Valid <==> self.amount.value() > 0,
            r is Warn <==> self.amount.value() == 0,
            r is Invalid <==> self.amount.value() < 0,
    {
        if self.amount.is_positive() {
            TransactionValid::Valid
        } else if self.amount.is_zero() {
            TransactionValid::Warn("Amount == 0 in Deposit transaction")
        } else {
            TransactionValid::Invalid("Amount < 0 in Deposit transaction")
        }
    }

    /// Commits the deposit. An unknown client gets a new account holding the
    /// amount; a locked account or a duplicated id is refused; otherwise the
    /// amount is added to `available` and recorded.
    fn commit(&self, accounts: &mut HashMap<TClientId, AccountState>) -> (r: Result<
        Committed,
        CommitError,
    >) {
        let ghost l = models(accounts@);
        match accounts.remove(&self.client) {
            None => {
                assert(accounts@ =~= old(accounts)@);
                if !self.amount.in_range() {
                    return Err(CommitError::OutOfRange);
                }
                let mut acct = AccountState::with_balance(self.amount);
                acct.transactions.insert(self.tx, LedgerEntry { under_dispute: false, signed_amount: self.amount });
                proof {
                    lemma_disputed_sum_empty();
                    lemma_disputed_sum_insert(Map::empty(), self.tx, fresh_entry(self.amount));
                    assert(acct.transactions@ =~= map![self.tx => fresh_entry(self.amount)]);
                    lemma_models_insert(accounts@, self.client, acct);
                }
                accounts.insert(self.client, acct);
                assert(models(accounts@) =~= self.next(l));
                Ok(Committed::Applied)
            },
            Some(mut acct) => {
                proof {
                    assert(old(accounts)@ =~= accounts@.insert(self.client, acct));
                    lemma_models_insert(accounts@, self.client, acct);
                    assert(acct@ == l[self.client]);
                    assert(l.contains_key(self.client) && acct@.wf());
                }
                let r: Result<Committed, CommitError>;
                if acct.locked {
                    r = Err(CommitError::Locked);
                } else if acct.transactions.contains_key(&self.tx) {
                    r = Err(CommitError::DuplicatedTx);
                } else if !self.amount.in_range() {
                    r = Err(CommitError::OutOfRange);
                } else {
                    match acct.available.checked_add(&self.amount) {
                        None => {
                            r = Err(CommitError::OutOfRange);
                        },
                        Some(sum) => {
                            proof {
                                lemma_disputed_sum_insert(acct.transactions@, self.tx, fresh_entry(self.amount));
                            }
                            acct.available = sum;
                            acct.transactions.insert(self.tx, LedgerEntry { under_dispute: false, signed_amount: self.amount });
                            r = Ok(Committed::Applied);
                        },
                    }
                }
                proof {
                    lemma_models_insert(accounts@, self.client, acct);
                }
                accounts.insert(self.client, acct);
                assert(models(accounts@) =~= self.next(l));
                r
            },
        }
    }
}

} // verus!
