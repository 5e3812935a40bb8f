//! The decisions of the sharded executor: how the dispatcher numbers,
//! filters and routes records, and how a shard worker applies what it
//! receives. Threads, channels and input are driven from outside.

use std::collections::HashMap;
use vstd::prelude::*;
use crate::accounts::{ledger_wf, models, AccountState};
use crate::decode::{
    decode_record, decoded, extraneous_amount, has_extraneous_amount, DecodeError,
};
use crate::laws::run;
use crate::transactions::{
    CommitError, Committed, Ledger, Transaction, TransactionInt, TransactionValid,
};
use crate::TClientId;

verus! {

broadcast use vstd::std_specs::hash::group_hash_axioms;

/// `n + 1`, wrapping to zero past the largest value.
pub open spec fn wrap_inc(n: u128) -> u128 {
    if n == u128::MAX {
        0
    } else {
        (n + 1) as u128
    }
}

/// The record number after `n`: counting up from one, wrapping past the
/// largest value back to one, so that zero never occurs.
pub open spec fn next_record_no(n: u128) -> u128 {
    if n == u128::MAX {
        1
    } else {
        (n + 1) as u128
    }
}

/// A shard worker's state: the accounts of the clients routed to it and the
/// number of transactions it committed.
pub struct Shard {
    pub accounts: HashMap<TClientId, AccountState>,
    pub processed: u128,
}

impl Shard {
    /// The shard's accounts are well formed.
    pub open spec fn wf(&self) -> bool {
        ledger_wf(models(self.accounts@))
    }

    /// A shard with no accounts.
    pub fn new() -> (r: Shard)
        ensures
            r.wf(),
            models(r.accounts@) == Map::<TClientId, crate::accounts::AccountModel>::empty(),
            r.processed == 0,
    {
        let r = Shard { accounts: HashMap::new(), processed: 0 };
        assert(models(r.accounts@) =~= Map::empty());
        r
    }

    /// Commits one transaction to the shard's accounts; a commit that is not
    /// refused counts as processed.
    pub fn apply(&mut self, transaction: &Transaction) -> (r: Result<Committed, CommitError>)
        requires
            old(self).wf(),
        ensures
            final(self).wf(),
            r == transaction.outcome(models(old(self).accounts@)),
            models(final(self).accounts@) == transaction.next(models(old(self).accounts@)),
            final(self).processed == if r is Ok {
                wrap_inc(old(self).processed)
            } else {
                old(self).processed
            },
    {
        let r = transaction.commit(&mut self.accounts);
        if r.is_ok() {
            self.processed = if self.processed == u128::MAX {
                0
            } else {
                self.processed + 1
            };
        }
        r
    }
}

/// The number of transactions of `ts` that commit, run in order from `l`.
pub open spec fn run_committed(l: Ledger, ts: Seq<Transaction>) -> nat
    decreases ts.len(),
{
    if ts.len() == 0 {
        0
    } else {
        (if ts[0].outcome(l) is Ok {
            1nat
        } else {
            0nat
        }) + run_committed(ts[0].next(l), ts.drop_first())
    }
}

proof fn lemma_run_snoc(l: Ledger, ts: Seq<Transaction>, t: Transaction)
    ensures
        run(l, ts.push(t)) == t.next(run(l, ts)),
        run_committed(l, ts.push(t)) == run_committed(l, ts) + (if t.outcome(run(l, ts)) is Ok {
            1nat
        } else {
            0nat
        }),
    decreases ts.len(),
{
    if ts.len() > 0 {
        lemma_run_snoc(ts[0].next(l), ts.drop_first(), t);
        assert(ts.push(t).drop_first() =~= ts.drop_first().push(t));
        assert(ts.push(t)[0] == ts[0]);
    } else {
        let e = Seq::<Transaction>::empty();
        assert(ts.push(t).drop_first() =~= e);
        assert(ts.push(t)[0] == t);
        assert(run(t.next(l), e) == t.next(l));
        assert(run_committed(t.next(l), e) == 0);
    }
}

/// Applies the transactions in order on one thread, from no accounts; returns
/// how many committed and the resulting accounts.
pub fn process_transactions(transactions: &Vec<Transaction>) -> (r: (
    u128,
    HashMap<TClientId, AccountState>,
))
    ensures
        models(r.1@) == run(Map::empty(), transactions@),
        r.0 == run_committed(Map::empty(), transactions@),
        ledger_wf(models(r.1@)),
{
    let mut shard = Shard::new();
    let mut i: usize = 0;
    while i < transactions.len()
        invariant
            i <= transactions@.len(),
            shard.wf(),
            models(shard.accounts@) == run(Map::empty(), transactions@.take(i as int)),
            shard.processed == run_committed(Map::empty(), transactions@.take(i as int)),
            shard.processed <= i,
        decreases transactions@.len() - i,
    {
        proof {
            lemma_run_snoc(Map::empty(), transactions@.take(i as int), transactions@[i as int]);
            assert(transactions@.take(i as int).push(transactions@[i as int]) =~= transactions@.take(
                i + 1,
            ));
        }
        let _ = shard.apply(&transactions[i]);
        i = i + 1;
    }
    assert(transactions@.take(i as int) =~= transactions@);
    (shard.processed, shard.accounts)
}

/// Why the dispatcher skipped a record.
#[derive(Clone, Copy, Debug, PartialEq, Eq)]
pub enum SkipReason {
    /// The row did not decode.
    Decode(DecodeError),
    /// Structural validation refused the transaction with this id.
    Invalid(u32, &'static str),
}

/// What the dispatcher decided for one record.
#[derive(Clone, Copy, Debug, PartialEq, Eq)]
pub enum Dispatch {
    /// The first record did not decode: the batch aborts.
    Fatal(DecodeError),
    /// The record with this number is skipped.
    Skip(u128, SkipReason),
    /// Send the transaction, under its record number, to shard `shard`,
    /// spawning that shard first when `spawn` is set; log `warning` if any.
    Send {
        record_no: u128,
        shard: usize,
        spawn: bool,
        transaction: Transaction,
        warning: Option<&'static str>,
    },
}

/// The transaction a row decodes to; `None` stands for a row that could not
/// be read.
pub open spec fn decode_row(row: Option<Vec<Vec<u8>>>) -> Result<Transaction, DecodeError> {
    match row {
        Some(f) => decoded(f@),
        None => Err(DecodeError::Unreadable),
    }
}

/// Whether a decode error means the row could not be parsed into a record,
/// as opposed to a record that is rejected: a deposit or withdrawal without
/// an amount, or with one that money cannot represent.
pub open spec fn is_parse_failure(e: DecodeError) -> bool {
    &&& e != DecodeError::MissingAmount
    &&& e != DecodeError::UnrepresentableAmount
    &&& e != DecodeError::IncompatibleType
}

/// Whether a row carries an amount that its kind ignores.
pub open spec fn row_has_extraneous_amount(row: Option<Vec<Vec<u8>>>) -> bool {
    match row {
        Some(f) => extraneous_amount(f@),
        None => false,
    }
}

/// The dispatcher's state: the shard bound to each client seen, how many
/// shards exist out of at most `workers`, the round-robin cursor, and the
/// number of the last record.
pub struct Dispatcher {
    pub workers: usize,
    pub spawned: usize,
    pub next_rr: usize,
    pub record_no: u128,
    pub routes: HashMap<TClientId, usize>,
}

impl Dispatcher {
    /// Every bound shard exists, and no more than `workers` shards do.
    pub open spec fn wf(&self) -> bool {
        &&& 1 <= self.workers
        &&& self.spawned <= self.workers
        &&& self.next_rr < self.workers
        &&& forall|c: TClientId| #[trigger]
            self.routes@.contains_key(c) ==> self.routes@[c] < self.spawned
    }

    /// The shard for client `c`: the one it is bound to; else a new one while
    /// fewer than `workers` exist; else the one under the round-robin cursor.
    pub open spec fn shard_for(&self, c: TClientId) -> usize {
        if self.routes@.contains_key(c) {
            self.routes@[c]
        } else if self.spawned < self.workers {
            self.spawned
        } else {
            self.next_rr
        }
    }

    /// A dispatcher for at most `workers` shards, before any record.
    pub fn new(workers: usize) -> (r: Dispatcher)
        requires
            workers >= 1,
        ensures
            r.wf(),
            r.workers == workers,
            r.spawned == 0,
            r.next_rr == 0,
            r.record_no == 0,
            r.routes@ == Map::<TClientId, usize>::empty(),
    {
        Dispatcher { workers, spawned: 0, next_rr: 0, record_no: 0, routes: HashMap::new() }
    }

    /// How many shards exist.
    pub fn shard_count(&self) -> (r: usize)
        ensures
            r == self.spawned,
    {
        self.spawned
    }

    /// Decides what to do with the next record: number it, decode it, drop
    /// it if invalid, and route its transaction to the shard of its client.
    /// A client once bound to a shard stays bound to it, so the transactions
    /// of one client all reach one shard, in input order.
    pub fn on_record(&mut self, row: Option<Vec<Vec<u8>>>) -> (r: Dispatch)
        requires
            old(self).wf(),
        ensures
            final(self).wf(),
            final(self).workers == old(self).workers,
            final(self).record_no == next_record_no(old(self).record_no),
            forall|c: TClientId| #[trigger]
                old(self).routes@.contains_key(c) ==> final(self).routes@.contains_key(c)
                    && final(self).routes@[c] == old(self).routes@[c],
            match decode_row(row) {
                Err(e) => {
                    &&& r == if old(self).record_no == 0 && is_parse_failure(e) {
                        Dispatch::Fatal(e)
                    } else {
                        Dispatch::Skip(final(self).record_no, SkipReason::Decode(e))
                    }
                    &&& final(self).routes@ == old(self).routes@
                    &&& final(self).spawned == old(self).spawned
                    &&& final(self).next_rr == old(self).next_rr
                },
                Ok(t) => if t.is_invalid() {
                    &&& r is Skip
                    &&& r->Skip_0 == final(self).record_no
                    &&& r->Skip_1 is Invalid
                    &&& r->Skip_1->Invalid_0 == t.tx()
                    &&& final(self).routes@ == old(self).routes@
                    &&& final(self).spawned == old(self).spawned
                    &&& final(self).next_rr == old(self).next_rr
                } else {
                    let c = t.client();
                    let known = old(self).routes@.contains_key(c);
                    let spawn = !known && old(self).spawned < old(self).workers;
                    let shard = old(self).shard_for(c);
                    &&& r is Send
                    &&& r->record_no == final(self).record_no
                    &&& r->shard == shard
                    &&& r->spawn == spawn
                    &&& r->transaction == t
                    &&& (r->warning is Some <==> t.is_warned() || row_has_extraneous_amount(row))
                    &&& final(self).routes@ == old(self).routes@.insert(c, shard)
                    &&& final(self).spawned == if spawn {
                        old(self).spawned + 1
                    } else {
                        old(self).spawned as int
                    }
                    &&& final(self).next_rr == if !known && !spawn {
                        (old(self).next_rr + 1) % (old(self).workers as int)
                    } else {
                        old(self).next_rr as int
                    }
                },
            },
    {
        let first = self.record_no == 0;
        self.record_no = if self.record_no == u128::MAX {
            1
        } else {
            self.record_no + 1
        };
        let (decoded, extraneous) = match row {
            Some(fields) => (decode_record(&fields), has_extraneous_amount(&fields)),
            None => (Err(DecodeError::Unreadable), false),
        };
        let t = match decoded {
            Err(e) => {
                let parse_failure = match e {
                    DecodeError::MissingAmount => false,
                    DecodeError::UnrepresentableAmount => false,
                    DecodeError::IncompatibleType => false,
                    _ => true,
                };
                if first && parse_failure {
                    return Dispatch::Fatal(e);
                } else {
                    return Dispatch::Skip(self.record_no, SkipReason::Decode(e));
                }
            },
            Ok(t) => t,
        };
        let warning = match t.validate() {
            TransactionValid::Valid => if extraneous {
                Some("amount is ignored in this kind of transaction")
            } else {
                None
            },
            TransactionValid::Warn(msg) => Some(msg),
            TransactionValid::Invalid(msg) => {
                return Dispatch::Skip(self.record_no, SkipReason::Invalid(t.id(), msg));
            },
        };
        let c = t.client_id();
        let mut spawn = false;
        let shard: usize = match self.routes.get(&c) {
            Some(s) => *s,
            None => {
                if self.spawned < self.workers {
                    let s = self.spawned;
                    self.spawned = self.spawned + 1;
                    spawn = true;
                    s
                } else {
                    let s = self.next_rr;
                    self.next_rr = (self.next_rr + 1) % self.workers;
                    s
                }
            },
        };
        self.routes.insert(c, shard);
        Dispatch::Send { record_no: self.record_no, shard, spawn, transaction: t, warning }
    }
}

} // verus!
