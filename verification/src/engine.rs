use crate::batch::TransactionBatch;
use crate::commitment::lemma_commitment_order_independent_envelopes;
use crate::crypto::generate_nonce;
use crate::envelope::TransactionEnvelope;
use crate::crypto::sha256_of;
use crate::permuter::{create_seed_from_batch_id, permute, seed_from_bytes, shuffle_of};
use vstd::prelude::*;
use vstd::string::StringSliceAdditionalSpecFns;
use vstd::utf8::encode_utf8;

verus! {

/// How the shuffle seed of a sealed batch is chosen.
///
/// `DerivedFromBatchId` hashes the batch's own identifier, so a relay can
/// reproduce the forwarding order from the disclosed id — but so can any
/// observer who learns the id, which accompanies the commitment.  That
/// policy therefore defends against timing correlation only.
/// `SecretPerBatch` draws an independently random seed instead, so the order
/// cannot be reproduced from public data.
#[derive(Clone, Copy, Debug, PartialEq, Eq, Structural)]
pub enum SeedPolicy {
    DerivedFromBatchId,
    SecretPerBatch,
}

/// Accumulates submitted envelopes and seals them into a batch when either
/// the size threshold is reached or the time window has elapsed.  The pending
/// sequence and the last seal time are owned exclusively by this value, so a
/// seal's drain-and-reset is indivisible: callers that share an engine wrap
/// it in one mutual-exclusion domain.
#[derive(Debug)]
pub struct BatchingEngine {
    pub max_batch_size: usize,
    pub batch_time_window_millis: u64,
    pub pending_transactions: Vec<TransactionEnvelope>,
    pub last_batch_time_millis: u64,
    pub seed_policy: SeedPolicy,
}

impl BatchingEngine {
    /// The time window has elapsed when `now` is at least a full window past
    /// the last seal.  A clock reading earlier than the last seal never
    /// counts as elapsed.
    pub open spec fn window_elapsed(self, now_millis: u64) -> bool {
        now_millis >= self.last_batch_time_millis + self.batch_time_window_millis
    }

    pub open spec fn same_config(self, other: Self) -> bool {
        &&& self.max_batch_size == other.max_batch_size
        &&& self.batch_time_window_millis == other.batch_time_window_millis
        &&& self.seed_policy == other.seed_policy
    }

    pub fn new(max_batch_size: usize, batch_time_window_millis: u64, now_millis: u64) -> (r: Self)
        ensures
            r.max_batch_size == max_batch_size,
            r.batch_time_window_millis == batch_time_window_millis,
            r.pending_transactions@.len() == 0,
            r.last_batch_time_millis == now_millis,
            r.seed_policy == SeedPolicy::DerivedFromBatchId,
    {
        Self {
            max_batch_size,
            batch_time_window_millis,
            pending_transactions: Vec::new(),
            last_batch_time_millis: now_millis,
            seed_policy: SeedPolicy::DerivedFromBatchId,
        }
    }

    /// Chooses the seed policy for every batch sealed from now on.
    pub fn set_seed_policy(&mut self, policy: SeedPolicy)
        ensures
            final(self).seed_policy == policy,
            final(self).max_batch_size == old(self).max_batch_size,
            final(self).batch_time_window_millis == old(self).batch_time_window_millis,
            final(self).pending_transactions@ == old(self).pending_transactions@,
            final(self).last_batch_time_millis == old(self).last_batch_time_millis,
    {
        self.seed_policy = policy;
    }

    /// Seals the entire pending sequence into one batch: drains the pending
    /// envelopes and resets the seal clock as one indivisible step, then
    /// commits and shuffles the drained envelopes.  Produces no batch when
    /// nothing is pending.  No envelope is lost or duplicated: the sealed
    /// batch holds exactly the envelopes that were pending.
    fn create_batch(&mut self, now_millis: u64) -> (r: Option<TransactionBatch>)
        ensures
            old(self).same_config(*final(self)),
            match r {
                None => {
                    &&& old(self).pending_transactions@.len() == 0
                    &&& *final(self) == *old(self)
                },
                Some(b) => {
                    &&& old(self).pending_transactions@.len() > 0
                    &&& b.wf()
                    &&& b.transactions@.to_multiset()
                        == old(self).pending_transactions@.to_multiset()
                    &&& b.transactions@.len() == old(self).pending_transactions@.len()
                    &&& b.timestamp_millis == now_millis
                    &&& (old(self).seed_policy == SeedPolicy::DerivedFromBatchId
                        ==> b.transactions@ == shuffle_of(
                        old(self).pending_transactions@,
                        sha256_of(encode_utf8(b.id@)),
                    ))
                    &&& final(self).pending_transactions@.len() == 0
                    &&& final(self).last_batch_time_millis == now_millis
                },
            },
    {
        if self.pending_transactions.is_empty() {
            return None;
        }
        // Take ownership of the whole pending sequence and replace it with an
        // empty one; with `&mut self` this drain-and-reset cannot interleave
        // with any other operation on the engine.
        let mut transactions: Vec<TransactionEnvelope> = Vec::new();
        core::mem::swap(&mut self.pending_transactions, &mut transactions);
        self.last_batch_time_millis = now_millis;

        let batch = TransactionBatch::new(transactions, now_millis);
        let seed: [u8; 32] = match self.seed_policy {
            SeedPolicy::DerivedFromBatchId => create_seed_from_batch_id(batch.id.as_str()),
            SeedPolicy::SecretPerBatch => {
                let secret = generate_nonce();
                seed_from_bytes(&secret)
            },
        };
        let TransactionBatch { id, transactions, commitment, timestamp_millis, nonce } = batch;
        let ghost pre_shuffle = transactions@;
        let shuffled = permute(transactions, &seed);
        proof {
            lemma_commitment_order_independent_envelopes(pre_shuffle, shuffled@, nonce@);
        }
        Some(
            TransactionBatch {
                id,
                transactions: shuffled,
                commitment,
                timestamp_millis,
                nonce,
            },
        )
    }

    /// Appends an envelope to the pending sequence; if that brings the count
    /// to the size threshold, the same operation synchronously seals a batch
    /// holding the old pending envelopes and the new one, and returns it.
    pub fn add_transaction(&mut self, tx: TransactionEnvelope, now_millis: u64) -> (r: Option<
        TransactionBatch,
    >)
        ensures
            old(self).same_config(*final(self)),
            if old(self).pending_transactions@.len() + 1 >= old(self).max_batch_size {
                &&& r is Some
                &&& (r matches Some(b) ==> {
                    &&& b.wf()
                    &&& b.transactions@.to_multiset() == old(self).pending_transactions@.push(
                        tx,
                    ).to_multiset()
                    &&& b.transactions@.len() == old(self).pending_transactions@.len() + 1
                    &&& b.timestamp_millis == now_millis
                    &&& (old(self).seed_policy == SeedPolicy::DerivedFromBatchId
                        ==> b.transactions@ == shuffle_of(
                        old(self).pending_transactions@.push(tx),
                        sha256_of(encode_utf8(b.id@)),
                    ))
                })
                &&& final(self).pending_transactions@.len() == 0
                &&& final(self).last_batch_time_millis == now_millis
            } else {
                &&& r is None
                &&& final(self).pending_transactions@ == old(self).pending_transactions@.push(tx)
                &&& final(self).last_batch_time_millis == old(self).last_batch_time_millis
            },
    {
        self.pending_transactions.push(tx);
        if self.pending_transactions.len() >= self.max_batch_size {
            self.create_batch(now_millis)
        } else {
            None
        }
    }

    /// Seals the pending envelopes if at least a full time window has passed
    /// since the last seal; produces no batch — and changes nothing — when
    /// the window has not elapsed or nothing is pending.  The trigger is
    /// allowed to fire late: the caller decides how often to poll.
    pub fn check_time_window(&mut self, now_millis: u64) -> (r: Option<TransactionBatch>)
        ensures
            old(self).same_config(*final(self)),
            if old(self).window_elapsed(now_millis) && old(self).pending_transactions@.len() > 0 {
                &&& r is Some
                &&& (r matches Some(b) ==> {
                    &&& b.wf()
                    &&& b.transactions@.to_multiset()
                        == old(self).pending_transactions@.to_multiset()
                    &&& b.transactions@.len() == old(self).pending_transactions@.len()
                    &&& b.timestamp_millis == now_millis
                    &&& (old(self).seed_policy == SeedPolicy::DerivedFromBatchId
                        ==> b.transactions@ == shuffle_of(
                        old(self).pending_transactions@,
                        sha256_of(encode_utf8(b.id@)),
                    ))
                })
                &&& final(self).pending_transactions@.len() == 0
                &&& final(self).last_batch_time_millis == now_millis
            } else {
                &&& r is None
                &&& *final(self) == *old(self)
            },
    {
        if now_millis >= self.last_batch_time_millis
            && now_millis - self.last_batch_time_millis >= self.batch_time_window_millis {
            self.create_batch(now_millis)
        } else {
            None
        }
    }
}

} // verus!
