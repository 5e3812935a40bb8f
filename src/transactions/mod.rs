//! The five transaction kinds, their structural validation, and how each one
//! is committed against the accounts.

use std::collections::HashMap;
use vstd::prelude::*;
use crate::accounts::{ledger_wf, models, AccountModel, AccountState, LedgerEntry};
use crate::money::Money;
use crate::{TClientId, TTrxID};

pub mod deposit;
pub mod withdrawal;
pub mod dispute;
pub mod resolve;
pub mod chargeback;

pub use deposit::Deposit;
pub use withdrawal::Withdrawal;
pub use dispute::Dispute;
pub use resolve::Resolve;
pub use chargeback::Chargeback;

verus! {

/// The accounts as mathematical values, by client.
pub type Ledger = Map<TClientId, AccountModel>;

/// Why a commit was refused. The accounts are then left unchanged.
#[derive(Clone, Copy, Debug, PartialEq, Eq, Structural)]
pub enum CommitError {
    /// No account exists for the client.
    UnknownClient,
    /// The account is locked.
    Locked,
    /// The account already records a transaction with this id.
    DuplicatedTx,
    /// The available funds are below the withdrawn amount.
    InsufficientFunds,
    /// The account records no transaction with the referenced id.
    UnknownTx,
    /// The referenced transaction is not under dispute.
    NotDisputed,
    /// An amount or a resulting balance leaves the range of money.
    OutOfRange,
}

/// How an accepted commit went.
#[derive(Clone, Copy, Debug, PartialEq, Eq, Structural)]
pub enum Committed {
    /// The transaction took effect.
    Applied,
    /// The referenced transaction was already disputed: nothing changed.
    AlreadyDisputed,
}

/// Result of structural validation.
#[derive(Clone, Copy, Debug, PartialEq, Eq)]
pub enum TransactionValid {
    /// Valid; process it.
    Valid,
    /// Valid, but the message should be logged; process it.
    Warn(&'static str),
    /// Invalid; log the message and skip the transaction.
    Invalid(&'static str),
}

/// What every transaction kind offers: its ids, structural validation, and
/// a commit against the accounts whose result and effect are `outcome` and
/// `next` of the ledger before it.
pub trait TransactionInt {
    /// The transaction id (for a dispute, resolve or chargeback: the id it
    /// refers to).
    spec fn tx(&self) -> TTrxID;

    /// The client the transaction is for.
    spec fn client(&self) -> TClientId;

    /// Structural validation refuses the transaction.
    spec fn is_invalid(&self) -> bool;

    /// Structural validation accepts the transaction with a warning.
    spec fn is_warned(&self) -> bool;

    /// What committing the transaction to ledger `l` returns.
    spec fn outcome(&self, l: Ledger) -> Result<Committed, CommitError>;

    /// The ledger after committing the transaction to `l`.
    spec fn next(&self, l: Ledger) -> Ledger;

    /// The transaction id.
    fn id(&self) -> (r: TTrxID)
        ensures
            r == self.tx(),
    ;

    /// The client id.
    fn client_id(&self) -> (r: TClientId)
        ensures
            r == self.client(),
    ;

    /// Structural validation, before commit.
    fn validate(&self) -> (r: TransactionValid)
        ensures
            r is Invalid <==> self.is_invalid(),
            r is Warn <==> self.is_warned(),
            r is Valid <==> !self.is_invalid() && !self.is_warned(),
    ;

    /// Commits the transaction against the accounts; a refused commit
    /// leaves them unchanged.
    fn commit(&self, accounts: &mut HashMap<TClientId, AccountState>) -> (r: Result<
        Committed,
        CommitError,
    >)
        requires
            ledger_wf(models(old(accounts)@)),
        ensures
            r == self.outcome(models(old(accounts)@)),
            models(final(accounts)@) == self.next(models(old(accounts)@)),
            ledger_wf(models(final(accounts)@)),
    ;
}

/// An entry that records a funds-moving amount, not disputed.
pub open spec fn fresh_entry(amount: Money) -> LedgerEntry {
    LedgerEntry { under_dispute: false, signed_amount: amount }
}

impl CommitError {
    /// A message describing the error.
    pub fn message(&self) -> &'static str {
        match self {
            CommitError::UnknownClient => "client unknown",
            CommitError::Locked => "account locked",
            CommitError::DuplicatedTx => "duplicated transaction ID",
            CommitError::InsufficientFunds => "not enough funds",
            CommitError::UnknownTx => "reference transaction ID not found for given client",
            CommitError::NotDisputed => "not disputed transaction",
            CommitError::OutOfRange => "amount out of range",
        }
    }
}

/// A transaction of any kind.
#[derive(Clone, Copy, Debug, PartialEq, Eq, Structural)]
pub enum Transaction {
    Deposit(Deposit),
    Withdrawal(Withdrawal),
    Dispute(Dispute),
    Resolve(Resolve),
    Chargeback(Chargeback),
}

impl TransactionInt for Transaction {
    open spec fn client(&self) -> TClientId {
        match *self {
            Transaction::Deposit(t) => t.client(),
            Transaction::Withdrawal(t) => t.client(),
            Transaction::Dispute(t) => t.client(),
            Transaction::Resolve(t) => t.client(),
            Transaction::Chargeback(t) => t.client(),
        }
    }

    open spec fn tx(&self) -> TTrxID {
        match *self {
            Transaction::Deposit(t) => t.tx(),
            Transaction::Withdrawal(t) => t.tx(),
            Transaction::Dispute(t) => t.tx(),
            Transaction::Resolve(t) => t.tx(),
            Transaction::Chargeback(t) => t.tx(),
        }
    }

    open spec fn is_invalid(&self) -> bool {
        match *self {
            Transaction::Deposit(t) => t.is_invalid(),
            Transaction::Withdrawal(t) => t.is_invalid(),
            Transaction::Dispute(t) => t.is_invalid(),
            Transaction::Resolve(t) => t.is_invalid(),
            Transaction::Chargeback(t) => t.is_invalid(),
        }
    }

    open spec fn is_warned(&self) -> bool {
        match *self {
            Transaction::Deposit(t) => t.is_warned(),
            Transaction::Withdrawal(t) => t.is_warned(),
            Transaction::Dispute(t) => t.is_warned(),
            Transaction::Resolve(t) => t.is_warned(),
            Transaction::Chargeback(t) => t.is_warned(),
        }
    }

    open spec fn outcome(&self, l: Ledger) -> Result<Committed, CommitError> {
        match *self {
            Transaction::Deposit(t) => t.outcome(l),
            Transaction::Withdrawal(t) => t.outcome(l),
            Transaction::Dispute(t) => t.outcome(l),
            Transaction::Resolve(t) => t.outcome(l),
            Transaction::Chargeback(t) => t.outcome(l),
        }
    }

    open spec fn next(&self, l: Ledger) -> Ledger {
        match *self {
            Transaction::Deposit(t) => t.next(l),
            Transaction::Withdrawal(t) => t.next(l),
            Transaction::Dispute(t) => t.next(l),
            Transaction::Resolve(t) => t.next(l),
            Transaction::Chargeback(t) => t.next(l),
        }
    }

    fn id(&self) -> (r: TTrxID) {
        match self {
            Transaction::Deposit(t) => t.id(),
            Transaction::Withdrawal(t) => t.id(),
            Transaction::Dispute(t) => t.id(),
            Transaction::Resolve(t) => t.id(),
            Transaction::Chargeback(t) => t.id(),
        }
    }

    fn client_id(&self) -> (r: TClientId) {
        match self {
            Transaction::Deposit(t) => t.client_id(),
            Transaction::Withdrawal(t) => t.client_id(),
            Transaction::Dispute(t) => t.client_id(),
            Transaction::Resolve(t) => t.client_id(),
            Transaction::Chargeback(t) => t.client_id(),
        }
    }

    fn validate(&self) -> (r: TransactionValid) {
        match self {
            Transaction::Deposit(t) => t.validate(),
            Transaction::Withdrawal(t) => t.validate(),
            Transaction::Dispute(t) => t.validate(),
            Transaction::Resolve(t) => t.validate(),
            Transaction::Chargeback(t) => t.validate(),
        }
    }

    fn commit(&self, accounts: &mut HashMap<TClientId, AccountState>) -> (r: Result<
        Committed,
        CommitError,
    >) {
        match self {
            Transaction::Deposit(t) => t.commit(accounts),
            Transaction::Withdrawal(t) => t.commit(accounts),
            Transaction::Dispute(t) => t.commit(accounts),
            Transaction::Resolve(t) => t.commit(accounts),
            Transaction::Chargeback(t) => t.commit(accounts),
        }
    }
}

} // verus!
