//! Laws of the ledger: how a run of transactions moves money, and how
//! transactions compose.

use vstd::prelude::*;
use crate::accounts::{
    disputed_sum, lemma_disputed_sum_empty, lemma_disputed_sum_insert, ledger_wf, AccountModel,
    LedgerEntry,
};
use crate::sums::{lemma_sum_insert, sum_of};
use crate::transactions::withdrawal::withdrawal_entry;
use crate::transactions::{
    fresh_entry, Chargeback, CommitError, Committed, Deposit, Dispute, Ledger, Resolve, Transaction,
    TransactionInt,
};

verus! {

/// The sum of the totals of all accounts.
pub open spec fn total_of(l: Ledger) -> int {
    sum_of(l.map_values(|a: AccountModel| a.total()))
}

/// The amount a transaction deposits when committed to `l`.
pub open spec fn deposited(t: Transaction, l: Ledger) -> int {
    match t {
        Transaction::Deposit(d) => if d.outcome(l) is Ok {
            d.amount.value()
        } else {
            0
        },
        _ => 0,
    }
}

/// The amount a transaction withdraws when committed to `l`.
pub open spec fn withdrawn(t: Transaction, l: Ledger) -> int {
    match t {
        Transaction::Withdrawal(w) => if w.outcome(l) is Ok {
            w.amount.value()
        } else {
            0
        },
        _ => 0,
    }
}

/// The signed amount a transaction charges back when committed to `l`.
pub open spec fn charged_back(t: Transaction, l: Ledger) -> int {
    match t {
        Transaction::Chargeback(c) => if c.outcome(l) is Ok {
            l[c.client].entries[c.tx].signed_amount.value()
        } else {
            0
        },
        _ => 0,
    }
}

/// The ledger after committing `ts` in order, starting from `l`.
pub open spec fn run(l: Ledger, ts: Seq<Transaction>) -> Ledger
    decreases ts.len(),
{
    if ts.len() == 0 {
        l
    } else {
        run(ts[0].next(l), ts.drop_first())
    }
}

/// Deposits minus withdrawals minus chargebacks of a run of `ts` from `l`.
pub open spec fn run_net_flow(l: Ledger, ts: Seq<Transaction>) -> int
    decreases ts.len(),
{
    if ts.len() == 0 {
        0
    } else {
        let t = ts[0];
        deposited(t, l) - withdrawn(t, l) - charged_back(t, l) + run_net_flow(
            t.next(l),
            ts.drop_first(),
        )
    }
}

proof fn lemma_total_of_insert(l: Ledger, c: u16, a: AccountModel)
    requires
        l.dom().finite(),
    ensures
        l.insert(c, a).dom().finite(),
        total_of(l.insert(c, a)) == total_of(l) - (if l.contains_key(c) {
            l[c].total()
        } else {
            0
        }) + a.total(),
{
    let f = |x: AccountModel| x.total();
    assert(l.insert(c, a).map_values(f) =~= l.map_values(f).insert(c, a.total()));
    assert(l.map_values(f).dom() =~= l.dom());
    assert(l.insert(c, a).dom() =~= l.dom().insert(c));
    lemma_sum_insert(l.map_values(f), c, a.total());
}

/// One commit changes the sum of totals by what it deposits, minus what it
/// withdraws, minus what it charges back.
pub proof fn lemma_commit_conserves_money(t: Transaction, l: Ledger)
    requires
        l.dom().finite(),
    ensures
        t.next(l).dom().finite(),
        total_of(t.next(l)) == total_of(l) + deposited(t, l) - withdrawn(t, l) - charged_back(t, l),
{
    match t {
        Transaction::Deposit(d) => {
            if d.outcome(l) is Ok {
                lemma_total_of_insert(l, d.client, d.applied(l)[d.client]);
                assert(d.applied(l) == l.insert(d.client, d.applied(l)[d.client]));
            }
        },
        Transaction::Withdrawal(w) => {
            if w.outcome(l) is Ok {
                lemma_total_of_insert(l, w.client, w.applied(l)[w.client]);
                assert(w.applied(l) == l.insert(w.client, w.applied(l)[w.client]));
            }
        },
        Transaction::Dispute(d) => {
            if d.outcome(l) == Ok::<Committed, CommitError>(Committed::Applied) {
                lemma_total_of_insert(l, d.client, d.applied(l)[d.client]);
                assert(d.applied(l) == l.insert(d.client, d.applied(l)[d.client]));
            }
        },
        Transaction::Resolve(r) => {
            if r.outcome(l) is Ok {
                lemma_total_of_insert(l, r.client, r.applied(l)[r.client]);
                assert(r.applied(l) == l.insert(r.client, r.applied(l)[r.client]));
            }
        },
        Transaction::Chargeback(c) => {
            if c.outcome(l) is Ok {
                lemma_total_of_insert(l, c.client, c.applied(l)[c.client]);
                assert(c.applied(l) == l.insert(c.client, c.applied(l)[c.client]));
            }
        },
    }
}

/// Money is conserved across a run: the sum of totals afterwards is the sum
/// before, plus the amounts deposited, minus those withdrawn, minus the net
/// amounts charged back. From an empty ledger, the sum of totals is that net
/// flow alone.
pub proof fn lemma_run_conserves_money(l: Ledger, ts: Seq<Transaction>)
    requires
        l.dom().finite(),
    ensures
        run(l, ts).dom().finite(),
        total_of(run(l, ts)) == total_of(l) + run_net_flow(l, ts),
        l == Map::<u16, AccountModel>::empty() ==> total_of(run(l, ts)) == run_net_flow(l, ts),
    decreases ts.len(),
{
    if ts.len() > 0 {
        lemma_commit_conserves_money(ts[0], l);
        lemma_run_conserves_money(ts[0].next(l), ts.drop_first());
    }
    if l == Map::<u16, AccountModel>::empty() {
        assert(l.map_values(|a: AccountModel| a.total()) =~= Map::<u16, int>::empty());
        crate::sums::lemma_sum_empty::<u16>();
    }
}

/// A dispute followed at once by the resolution of the same transaction
/// leaves the ledger exactly as it was, unless the transaction was already
/// disputed: only the disputed flag cycles.
pub proof fn lemma_dispute_then_resolve(l: Ledger, client: u16, tx: u32)
    requires
        ledger_wf(l),
        !(l.contains_key(client) && l[client].entries.contains_key(tx)
            && l[client].entries[tx].under_dispute),
    ensures
        (Resolve { client, tx }).next((Dispute { client, tx }).next(l)) == l,
        (Dispute { client, tx }).outcome(l) is Ok ==> (Dispute { client, tx }).next(
            l,
        )[client].entries[tx].under_dispute,
{
    let d = Dispute { client, tx };
    let r = Resolve { client, tx };
    if d.outcome(l) is Ok {
        let m = d.next(l);
        assert(l[client].wf());
        assert(r.outcome(m) is Ok);
        assert(r.next(m)[client].entries =~= l[client].entries);
        assert(r.next(m) =~= l);
    }
}

/// A deposit of `a` for a client without an account succeeds and leaves it
/// with `available == a`, `held == 0`, `total == a`, unlocked.
pub proof fn lemma_fresh_deposit(l: Ledger, d: Deposit)
    requires
        !l.contains_key(d.client),
        d.amount.valid(),
    ensures
        d.outcome(l) == Ok::<Committed, CommitError>(Committed::Applied),
        d.next(l)[d.client].available == d.amount.value(),
        d.next(l)[d.client].held == 0,
        d.next(l)[d.client].total() == d.amount.value(),
        !d.next(l)[d.client].locked,
{
}

/// A locked account refuses every transaction, and nothing changes.
pub proof fn lemma_locked_account_frozen(l: Ledger, t: Transaction)
    requires
        l.contains_key(t.client()),
        l[t.client()].locked,
    ensures
        t.outcome(l) == Err::<Committed, CommitError>(CommitError::Locked),
        t.next(l) == l,
{
}

/// The transactions of `ts` whose client is in `s`, in their order.
pub open spec fn for_clients(ts: Seq<Transaction>, s: Set<u16>) -> Seq<Transaction>
    decreases ts.len(),
{
    if ts.len() == 0 {
        ts
    } else if s.contains(ts[0].client()) {
        seq![ts[0]] + for_clients(ts.drop_first(), s)
    } else {
        for_clients(ts.drop_first(), s)
    }
}

/// Two ledgers hold the same account, or none, for client `c`.
pub open spec fn agree_at(l1: Ledger, l2: Ledger, c: u16) -> bool {
    &&& l1.contains_key(c) == l2.contains_key(c)
    &&& l1.contains_key(c) ==> l1[c] == l2[c]
}

/// A commit reads and writes the account of its own client only.
pub proof fn lemma_commit_is_local(t: Transaction, l1: Ledger, l2: Ledger, c: u16)
    ensures
        agree_at(l1, l2, t.client()) ==> t.outcome(l1) == t.outcome(l2) && agree_at(
            t.next(l1),
            t.next(l2),
            t.client(),
        ),
        c != t.client() ==> agree_at(t.next(l1), l1, c),
{
}

proof fn lemma_run_agrees(l1: Ledger, l2: Ledger, ts: Seq<Transaction>, s: Set<u16>, c: u16)
    requires
        s.contains(c),
        agree_at(l1, l2, c),
    ensures
        agree_at(run(l1, ts), run(l2, for_clients(ts, s)), c),
    decreases ts.len(),
{
    if ts.len() > 0 {
        let t = ts[0];
        let rest = ts.drop_first();
        lemma_commit_is_local(t, l1, l2, c);
        if s.contains(t.client()) {
            let f = seq![t] + for_clients(rest, s);
            assert(f[0] == t);
            assert(f.drop_first() =~= for_clients(rest, s));
            if t.client() == c {
                lemma_run_agrees(t.next(l1), t.next(l2), rest, s, c);
            } else {
                lemma_commit_is_local(t, l2, l2, c);
                lemma_run_agrees(t.next(l1), t.next(l2), rest, s, c);
            }
        } else {
            lemma_run_agrees(t.next(l1), l2, rest, s, c);
        }
    }
}

/// Sharding preserves the outcome: a shard that commits, in input order,
/// only the transactions of the clients routed to it (the set `s`) ends with
/// the same account for each of those clients as a single run of all the
/// transactions.
pub proof fn lemma_shard_matches_run(l: Ledger, ts: Seq<Transaction>, s: Set<u16>, c: u16)
    requires
        s.contains(c),
    ensures
        agree_at(run(l, ts), run(l, for_clients(ts, s)), c),
{
    lemma_run_agrees(l, l, ts, s, c);
}

/// Once a chargeback has locked an account, no later transaction of a run
/// changes it: the account stays exactly as the chargeback left it.
pub proof fn lemma_locked_account_stays(l: Ledger, ts: Seq<Transaction>, c: u16)
    requires
        l.contains_key(c),
        l[c].locked,
    ensures
        run(l, ts).contains_key(c),
        run(l, ts)[c] == l[c],
    decreases ts.len(),
{
    if ts.len() > 0 {
        let t = ts[0];
        lemma_commit_is_local(t, l, l, c);
        if t.client() == c {
            lemma_locked_account_frozen(l, t);
        }
        lemma_locked_account_stays(t.next(l), ts.drop_first(), c);
    }
}

/// Every commit keeps every account well formed: balances and amounts in
/// range, and `held` equal to the signed sum of the disputed entries.
pub proof fn lemma_commit_keeps_wf(t: Transaction, l: Ledger)
    requires
        ledger_wf(l),
    ensures
        ledger_wf(t.next(l)),
{
    match t {
        Transaction::Deposit(d) => {
            if d.outcome(l) is Ok {
                if l.contains_key(d.client) {
                    let a = l[d.client];
                    lemma_disputed_sum_insert(a.entries, d.tx, fresh_entry(d.amount));
                } else {
                    lemma_disputed_sum_empty();
                    lemma_disputed_sum_insert(Map::empty(), d.tx, fresh_entry(d.amount));
                    assert(Map::<u32, LedgerEntry>::empty().insert(d.tx, fresh_entry(d.amount))
                        =~= map![d.tx => fresh_entry(d.amount)]);
                }
                assert(ledger_wf(d.next(l))) by {
                    assert forall|c: u16| #[trigger] d.next(l).contains_key(c) implies d.next(
                        l,
                    )[c].wf() by {
                        if c != d.client {
                            assert(l.contains_key(c));
                        }
                    }
                }
            }
        },
        Transaction::Withdrawal(w) => {
            if w.outcome(l) is Ok {
                let a = l[w.client];
                assert(a.wf());
                lemma_disputed_sum_insert(a.entries, w.tx, withdrawal_entry(w.amount));
                assert(ledger_wf(w.next(l))) by {
                    assert forall|c: u16| #[trigger] w.next(l).contains_key(c) implies w.next(
                        l,
                    )[c].wf() by {
                        if c != w.client {
                            assert(l.contains_key(c));
                        }
                    }
                }
            }
        },
        Transaction::Dispute(x) => {
            if x.outcome(l) == Ok::<Committed, CommitError>(Committed::Applied) {
                let a = l[x.client];
                assert(a.wf());
                let e = a.entries[x.tx];
                lemma_disputed_sum_insert(a.entries, x.tx, LedgerEntry { under_dispute: true, ..e });
                assert(ledger_wf(x.next(l))) by {
                    assert forall|c: u16| #[trigger] x.next(l).contains_key(c) implies x.next(
                        l,
                    )[c].wf() by {
                        if c != x.client {
                            assert(l.contains_key(c));
                        }
                    }
                }
            }
        },
        Transaction::Resolve(x) => {
            if x.outcome(l) is Ok {
                let a = l[x.client];
                assert(a.wf());
                let e = a.entries[x.tx];
                lemma_disputed_sum_insert(a.entries, x.tx, LedgerEntry { under_dispute: false, ..e });
                assert(ledger_wf(x.next(l))) by {
                    assert forall|c: u16| #[trigger] x.next(l).contains_key(c) implies x.next(
                        l,
                    )[c].wf() by {
                        if c != x.client {
                            assert(l.contains_key(c));
                        }
                    }
                }
            }
        },
        Transaction::Chargeback(x) => {
            if x.outcome(l) is Ok {
                let a = l[x.client];
                assert(a.wf());
                let e = a.entries[x.tx];
                lemma_disputed_sum_insert(a.entries, x.tx, LedgerEntry { under_dispute: false, ..e });
                assert(ledger_wf(x.next(l))) by {
                    assert forall|c: u16| #[trigger] x.next(l).contains_key(c) implies x.next(
                        l,
                    )[c].wf() by {
                        if c != x.client {
                            assert(l.contains_key(c));
                        }
                    }
                }
            }
        },
    }
}

/// After any run, every account is still well formed; in particular `held`
/// is the signed sum of the amounts of the entries under dispute.
pub proof fn lemma_run_keeps_wf(l: Ledger, ts: Seq<Transaction>)
    requires
        ledger_wf(l),
    ensures
        ledger_wf(run(l, ts)),
        forall|c: u16| #[trigger]
            run(l, ts).contains_key(c) ==> run(l, ts)[c].held == disputed_sum(
                run(l, ts)[c].entries,
            ),
    decreases ts.len(),
{
    if ts.len() > 0 {
        lemma_commit_keeps_wf(ts[0], l);
        lemma_run_keeps_wf(ts[0].next(l), ts.drop_first());
    }
}

} // verus!
