//! Resolve: closes a dispute, releasing the held amount back to `available`.

use std::collections::HashMap;
use vstd::prelude::*;
use crate::accounts::{
    lemma_disputed_sum_insert, lemma_models_insert, models, AccountModel, AccountState,
    LedgerEntry,
};
use crate::money::in_money_range;
use crate::transactions::{CommitError, Committed, Ledger, TransactionInt, TransactionValid};
use crate::{TClientId, TTrxID};

verus! {

broadcast use vstd::std_specs::hash::group_hash_axioms;

/// A resolution of the dispute of transaction `tx` of `client`.
#[derive(Clone, Copy, Debug, PartialEq, Eq, Structural)]
pub struct Resolve {
    pub client: TClientId,
    pub tx: TTrxID,
}

impl Resolve {
    /// The ledger after the resolution took effect on `l`.
    pub open spec fn applied(self, l: Ledger) -> Ledger {
        let a = l[self.client];
        let e = a.entries[self.tx];
        let s = e.signed_amount.value();
        l.insert(
            self.client,
            AccountModel {
                available: a.available + s,
                held: a.held - s,
                entries: a.entries.insert(self.tx, LedgerEntry { under_dispute: false, ..e }),
                ..a
            },
        )
    }

    /// A resolution of the dispute of transaction `tx` of `client`.
    pub fn test(client: TClientId, tx: TTrxID) -> (r: Self)
        ensures
            r == (Resolve { client, tx }),
    {
        Resolve { client, tx }
    }
}

impl TransactionInt for Resolve {
    open spec fn tx(&self) -> TTrxID {
        self.tx
    }

    open spec fn client(&self) -> TClientId {
        self.client
    }

    open spec fn is_invalid(&self) -> bool {
        false
    }

    open spec fn is_warned(&self) -> bool {
        false
    }

    /// What committing the resolution to ledger `l` returns.
    open spec fn outcome(&self, l: Ledger) -> Result<Committed, CommitError> {
        if !l.contains_key(self.client) {
            Err(CommitError::UnknownClient)
        } else if l[self.client].locked {
            Err(CommitError::Locked)
        } else if !l[self.client].entries.contains_key(self.tx) {
            Err(CommitError::UnknownTx)
        } else if !l[self.client].entries[self.tx].under_dispute {
            Err(CommitError::NotDisputed)
        } else {
            let a = l[self.client];
            let s = a.entries[self.tx].signed_amount.value();
            if !in_money_range(a.available + s) || !in_money_range(a.held - s) {
                Err(CommitError::OutOfRange)
            } else {
                Ok(Committed::Applied)
            }
        }
    }

    /// The ledger after committing the resolution to `l`.
    open spec fn next(&self, l: Ledger) -> Ledger {
        if self.outcome(l) is Ok {
            self.applied(l)
        } else {
            l
        }
    }

    /// The referenced transaction id.
    fn id(&self) -> (r: TTrxID) {
        self.tx
    }

    /// The client id.
    fn client_id(&self) -> (r: TClientId) {
        self.client
    }

    /// A resolution is always structurally valid.
    fn validate(&self) -> (r: TransactionValid)
        ensures
            r is Valid,
    {
        TransactionValid::Valid
    }

    /// Commits the resolution. An unknown client, a locked account, an
    /// unknown transaction or one not under dispute is refused; otherwise its
    /// signed amount moves from `held` back to `available` and the dispute
    /// is cleared.
    fn commit(&self, accounts: &mut HashMap<TClientId, AccountState>) -> (r: Result<
        Committed,
        CommitError,
    >) {
        let ghost l = models(accounts@);
        match accounts.remove(&self.client) {
            None => {
                assert(accounts@ =~= old(accounts)@);
                Err(CommitError::UnknownClient)
            },
            Some(mut acct) => {
                proof {
                    assert(old(accounts)@ =~= accounts@.insert(self.client, acct));
                    lemma_models_insert(accounts@, self.client, acct);
                    assert(acct@ == l[self.client]);
                    assert(l.contains_key(self.client) && acct@.wf());
                }
                let r: Result<Committed, CommitError>;
                if acct.locked {
                    r = Err(CommitError::Locked);
                } else {
                    match acct.transactions.get(&self.tx) {
                        None => {
                            r = Err(CommitError::UnknownTx);
                        },
                        Some(entry) => {
                            let e: LedgerEntry = *entry;
                            if !e.under_dispute {
                                r = Err(CommitError::NotDisputed);
                            } else {
                                let s = e.signed_amount;
                                match (acct.available.checked_add(&s), acct.held.checked_sub(&s)) {
                                    (Some(avail), Some(held)) => {
                                        let ne = LedgerEntry { under_dispute: false, signed_amount: s };
                                        proof {
                                            lemma_disputed_sum_insert(acct.transactions@, self.tx, ne);
                                        }
                                        acct.available = avail;
                                        acct.held = held;
                                        acct.transactions.insert(self.tx, ne);
                                        r = Ok(Committed::Applied);
                                    },
                                    _ => {
                                        r = Err(CommitError::OutOfRange);
                                    },
                                }
                            }
                        },
                    }
                }
                proof {
                    lemma_models_insert(accounts@, self.client, acct);
                }
                accounts.insert(self.client, acct);
                assert(models(accounts@) =~= self.next(l));
                r
            },
        }
    }
}

} // verus!
