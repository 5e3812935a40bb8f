//! Withdrawal: removes available funds from a known, unlocked account.

use std::collections::HashMap;
use vstd::prelude::*;
use crate::accounts::{
    lemma_disputed_sum_insert, lemma_models_insert, models, AccountModel, AccountState,
    LedgerEntry,
};
use crate::money::{in_money_range, Money};
use crate::transactions::{CommitError, Committed, Ledger, TransactionInt, TransactionValid};
use crate::{TClientId, TTrxID};

verus! {

broadcast use vstd::std_specs::hash::group_hash_axioms;

/// A withdrawal of `amount` from the account of `client`.
#[derive(Clone, Copy, Debug, PartialEq, Eq, Structural)]
pub struct Withdrawal {
    pub client: TClientId,
    pub tx: TTrxID,
    pub amount: Money,
}

/// The entry a withdrawal records: its amount, negated, not disputed.
pub open spec fn withdrawal_entry(amount: Money) -> LedgerEntry {
    LedgerEntry { under_dispute: false, signed_amount: Money { units: (-amount.units) as i128 } }
}

impl Withdrawal {
    /// The ledger after the withdrawal took effect on `l`.
    pub open spec fn applied(self, l: Ledger) -> Ledger {
        let a = l[self.client];
        l.insert(
            self.client,
            AccountModel {
                available: a.available - self.amount.value(),
                entries: a.entries.insert(self.tx, withdrawal_entry(self.amount)),
                ..a
            },
        )
    }

    /// A withdrawal of `amount` from `client` under id `tx`.
    pub fn test(client: TClientId, tx: TTrxID, amount: Money) -> (r: Self)
        ensures
            r == (Withdrawal { client, tx, amount }),
    {
        Withdrawal { client, tx, amount }
    }
}

impl TransactionInt for Withdrawal {
    open spec fn tx(&self) -> TTrxID {
        self.tx
    }

    open spec fn client(&self) -> TClientId {
        self.client
    }

    open spec fn is_invalid(&self) -> bool {
        self.amount.value() < 0
    }

    open spec fn is_warned(&self) -> bool {
        self.amount.value() == 0
    }

    /// What committing the withdrawal to ledger `l` returns.
    open spec fn outcome(&self, l: Ledger) -> Result<Committed, CommitError> {
        if !l.contains_key(self.client) {
            Err(CommitError::UnknownClient)
        } else if l[self.client].locked {
            Err(CommitError::Locked)
        } else if l[self.client].available < self.amount.value() {
            Err(CommitError::InsufficientFunds)
        } else if l[self.client].entries.contains_key(self.tx) {
            Err(CommitError::DuplicatedTx)
        } else if !self.amount.valid() || !in_money_range(
            l[self.client].available - self.amount.value(),
        ) {
            Err(CommitError::OutOfRange)
        } else {
            Ok(Committed::Applied)
        }
    }

    /// The ledger after committing the withdrawal to `l`.
    open spec fn next(&self, l: Ledger) -> Ledger {
        if self.outcome(l) is Ok {
            self.applied(l)
        } else {
            l
        }
    }

    /// The transaction id.
    fn id(&self) -> (r: TTrxID) {
        self.tx
    }

    /// The client id.
    fn client_id(&self) -> (r: TClientId) {
        self.client
    }

    /// A positive amount is valid, zero draws a warning, a negative amount is
    /// invalid.
    fn validate(&self) -> (r: TransactionValid)
        ensures
            r is Valid <==> self.amount.value() > 0,
            r is Warn <==> self.amount.value() == 0,
            r is Invalid <==> self.amount.value() < 0,
    {
        if self.amount.is_positive() {
            TransactionValid::Valid
        } else if self.amount.is_zero() {
            TransactionValid::Warn("Amount == 0 in Withdrawal transaction")
        } else {
            TransactionValid::Invalid("Amount < 0 in Withdrawal transaction")
        }
    }

    /// Commits the withdrawal. An unknown client, a locked account, funds
    /// below the amount or a duplicated id is refused; otherwise the amount is
    /// taken from `available` and recorded negated.
    fn commit(&self, accounts: &mut HashMap<TClientId, AccountState>) -> (r: Result<
        Committed,
        CommitError,
    >) {
        let ghost l = models(accounts@);
        match accounts.remove(&self.client) {
            None => {
                assert(accounts@ =~= old(accounts)@);
                Err(CommitError::UnknownClient)
            },
            Some(mut acct) => {
                proof {
                    assert(old(accounts)@ =~= accounts@.insert(self.client, acct));
                    lemma_models_insert(accounts@, self.client, acct);
                    assert(acct@ == l[self.client]);
                    assert(l.contains_key(self.client) && acct@.wf());
                }
                let r: Result<Committed, CommitError>;
                if acct.locked {
                    r = Err(CommitError::Locked);
                } else if acct.available.less_than(&self.amount) {
                    r = Err(CommitError::InsufficientFunds);
                } else if acct.transactions.contains_key(&self.tx) {
                    r = Err(CommitError::DuplicatedTx);
                } else if !self.amount.in_range() {
                    r = Err(CommitError::OutOfRange);
                } else {
                    match acct.available.checked_sub(&self.amount) {
                        None => {
                            r = Err(CommitError::OutOfRange);
                        },
                        Some(diff) => {
                            let entry = LedgerEntry {
                                under_dispute: false,
                                signed_amount: self.amount.negate(),
                            };
                            assert(entry == withdrawal_entry(self.amount));
                            proof {
                                lemma_disputed_sum_insert(acct.transactions@, self.tx, entry);
                            }
                            acct.available = diff;
                            acct.transactions.insert(self.tx, entry);
                            r = Ok(Committed::Applied);
                        },
                    }
                }
                proof {
                    lemma_models_insert(accounts@, self.client, acct);
                }
                accounts.insert(self.client, acct);
                assert(models(accounts@) =~= self.next(l));
                r
            },
        }
    }
}

} // verus!
