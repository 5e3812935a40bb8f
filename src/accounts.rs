//! Client accounts: balances, the lock, and the history of funds-moving
//! transactions.

use std::collections::HashMap;
use vstd::prelude::*;
use crate::money::{in_money_range, Money};
use crate::sums::{lemma_sum_empty, lemma_sum_insert, sum_of};
use crate::{TClientId, TTrxID};

verus! {

broadcast use vstd::std_specs::hash::group_hash_axioms;

/// One funds-moving transaction recorded on an account.
#[derive(Clone, Copy, Debug, PartialEq, Eq, Structural)]
pub struct LedgerEntry {
    /// Whether the transaction is currently disputed.
    pub under_dispute: bool,
    /// The amount it moved: positive for a deposit, negative for a withdrawal.
    pub signed_amount: Money,
}

/// State of a client account.
pub struct AccountState {
    /// Funds available for withdrawal.
    pub available: Money,
    /// Funds frozen by disputes.
    pub held: Money,
    /// Whether a chargeback has locked the account.
    pub locked: bool,
    /// The funds-moving transactions of the account, by id.
    pub transactions: HashMap<TTrxID, LedgerEntry>,
}

/// What an account holds, as mathematical values.
pub struct AccountModel {
    pub available: int,
    pub held: int,
    pub locked: bool,
    pub entries: Map<TTrxID, LedgerEntry>,
}

/// What a disputed entry contributes to `held`.
pub open spec fn disputed_value(e: LedgerEntry) -> int {
    if e.under_dispute {
        e.signed_amount.value()
    } else {
        0
    }
}

/// The signed sum of the amounts of the disputed entries.
pub open spec fn disputed_sum(entries: Map<TTrxID, LedgerEntry>) -> int {
    sum_of(entries.map_values(|e: LedgerEntry| disputed_value(e)))
}

impl AccountModel {
    /// `available + held`.
    pub open spec fn total(self) -> int {
        self.available + self.held
    }

    /// The account's invariant: balances in range, entries in range, and
    /// `held` equal to the signed sum of the disputed entries.
    pub open spec fn wf(self) -> bool {
        &&& in_money_range(self.available)
        &&& in_money_range(self.held)
        &&& self.entries.dom().finite()
        &&& forall|t: TTrxID| #[trigger]
            self.entries.contains_key(t) ==> self.entries[t].signed_amount.valid()
        &&& self.held == disputed_sum(self.entries)
    }

    /// A fresh account holding `amount` available and no history.
    pub open spec fn fresh(amount: int) -> AccountModel {
        AccountModel { available: amount, held: 0, locked: false, entries: Map::empty() }
    }
}

impl View for AccountState {
    type V = AccountModel;

    open spec fn view(&self) -> AccountModel {
        AccountModel {
            available: self.available.value(),
            held: self.held.value(),
            locked: self.locked,
            entries: self.transactions@,
        }
    }
}

/// The accounts of a map, as models.
pub open spec fn models(m: Map<TClientId, AccountState>) -> Map<TClientId, AccountModel> {
    m.map_values(|a: AccountState| a@)
}

/// Every account of the ledger is well formed.
pub open spec fn ledger_wf(l: Map<TClientId, AccountModel>) -> bool {
    forall|c: TClientId| #[trigger] l.contains_key(c) ==> l[c].wf()
}

/// Changing one entry of an account changes the disputed sum by the
/// difference in what the entry contributes.
pub proof fn lemma_disputed_sum_insert(entries: Map<TTrxID, LedgerEntry>, t: TTrxID, e: LedgerEntry)
    requires
        entries.dom().finite(),
    ensures
        disputed_sum(entries.insert(t, e)) == disputed_sum(entries) - (if entries.contains_key(t) {
            disputed_value(entries[t])
        } else {
            0
        }) + disputed_value(e),
{
    let f = |x: LedgerEntry| disputed_value(x);
    let v = entries.map_values(f);
    assert(entries.insert(t, e).map_values(f) =~= v.insert(t, disputed_value(e)));
    assert(v.dom() =~= entries.dom());
    lemma_sum_insert(v, t, disputed_value(e));
}

/// An account without entries holds nothing disputed.
pub proof fn lemma_disputed_sum_empty()
    ensures
        disputed_sum(Map::<TTrxID, LedgerEntry>::empty()) == 0,
{
    assert(Map::<TTrxID, LedgerEntry>::empty().map_values(|e: LedgerEntry| disputed_value(e))
        =~= Map::<TTrxID, int>::empty());
    lemma_sum_empty::<TTrxID>();
}

/// Replacing one account of a map changes its models at that client only.
pub proof fn lemma_models_insert(m: Map<TClientId, AccountState>, c: TClientId, a: AccountState)
    ensures
        models(m.insert(c, a)) == models(m).insert(c, a@),
{
    assert(models(m.insert(c, a)) =~= models(m).insert(c, a@));
}

impl Default for AccountState {
    fn default() -> (r: Self)
        ensures
            r@ == AccountModel::fresh(0),
    {
        AccountState::with_balance(Money::zero())
    }
}

impl AccountState {
    /// An account with `balance` available, nothing held, unlocked, with no
    /// history.
    pub fn with_balance(balance: Money) -> (r: Self)
        ensures
            r@ == AccountModel::fresh(balance.value()),
            balance.valid() ==> r@.wf(),
    {
        proof {
            lemma_disputed_sum_empty();
        }
        let r = AccountState {
            available: balance,
            held: Money::zero(),
            locked: false,
            transactions: HashMap::new(),
        };
        assert(r.transactions@ =~= Map::empty());
        r
    }

    /// `available + held`.
    pub fn total(&self) -> (r: Money)
        requires
            self@.wf(),
        ensures
            r.value() == self@.total(),
    {
        Money { units: self.available.units + self.held.units }
    }
}

/// Accounts for clients `1..=n`, client `i` with `balance[i - 1]` available.
pub fn create_accounts(balance: &[Money]) -> (r: HashMap<TClientId, AccountState>)
    requires
        balance@.len() <= 65535,
    ensures
        models(r@) == Map::new(
            |c: TClientId| 1 <= c <= balance@.len(),
            |c: TClientId| AccountModel::fresh(balance@[c - 1].value()),
        ),
{
    let mut accounts: HashMap<TClientId, AccountState> = HashMap::new();
    let mut i: usize = 0;
    while i < balance.len()
        invariant
            i <= balance@.len() <= 65535,
            models(accounts@) == Map::new(
                |c: TClientId| 1 <= c <= i,
                |c: TClientId| AccountModel::fresh(balance@[c - 1].value()),
            ),
        decreases balance@.len() - i,
    {
        let acct = AccountState::with_balance(balance[i]);
        let c: TClientId = (i + 1) as TClientId;
        proof {
            lemma_models_insert(accounts@, c, acct);
        }
        accounts.insert(c, acct);
        i = i + 1;
        assert(models(accounts@) =~= Map::new(
            |c: TClientId| 1 <= c <= i,
            |c: TClientId| AccountModel::fresh(balance@[c - 1].value()),
        ));
    }
    assert(models(accounts@) =~= Map::new(
        |c: TClientId| 1 <= c <= balance@.len(),
        |c: TClientId| AccountModel::fresh(balance@[c - 1].value()),
    ));
    accounts
}

} // verus!
