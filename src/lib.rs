//! A batch payments engine: a per-client ledger of deposits, withdrawals and
//! disputes, a decoder for transaction rows, and the routing decisions of a
//! sharded executor.

use vstd::prelude::*;

pub mod accounts;
pub mod decode;
pub mod laws;
pub mod money;
pub mod processor;
pub mod sums;
pub mod text;
pub mod transactions;

verus! {

/// Identifier of a client.
pub type TClientId = u16;

/// Identifier of a transaction.
pub type TTrxID = u32;

/// How a batch is run.
pub struct Args {
    /// The transactions file has no header row.
    pub no_header: bool,
    /// Lines that begin with `#` are comments.
    pub comments: bool,
    /// Number of shard workers; at least one.
    pub wrk_num: usize,
    /// Capacity of each shard's queue, in thousands of messages.
    pub wrk_buff: usize,
    /// Path to the transactions file, columns `type,client,tx,amount`.
    pub trx_file: String,
}

impl Args {
    /// The capacity of each shard's queue, `wrk_buff * 1000`, if it fits.
    pub fn queue_capacity(&self) -> (r: Option<usize>)
        ensures
            r is Some <==> self.wrk_buff * 1000 <= usize::MAX,
            r is Some ==> r->0 == self.wrk_buff * 1000,
    {
        self.wrk_buff.checked_mul(1000)
    }

    /// Whether the settings can run a batch: at least one worker and a queue
    /// capacity that fits.
    pub fn is_runnable(&self) -> (r: bool)
        ensures
            r == (self.wrk_num >= 1 && self.wrk_buff * 1000 <= usize::MAX),
    {
        self.wrk_num >= 1 && self.queue_capacity().is_some()
    }
}

} // verus!
