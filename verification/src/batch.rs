use crate::commitment::{commitment_of, compute_commitment};
use crate::crypto::{fresh_batch_id, generate_nonce};
use crate::envelope::{payload_seq, TransactionEnvelope};
use vstd::prelude::*;

verus! {

/// A sealed, immutable group of envelopes: a fresh identifier, the envelopes
/// in forwarding order, the commitment that binds the payloads and the nonce,
/// and the seal time.
#[derive(Clone, Debug)]
pub struct TransactionBatch {
    pub id: String,
    pub transactions: Vec<TransactionEnvelope>,
    pub commitment: Vec<u8>,
    pub timestamp_millis: u64,
    pub nonce: Vec<u8>,
}

impl TransactionBatch {
    /// A well-formed batch is non-empty, carries a 32-byte nonce and a
    /// 32-byte commitment, and the commitment field is exactly the
    /// commitment over its own payloads and nonce.  Because the commitment is order-independent, the invariant is
    /// unharmed by the shuffle into forwarding order.
    pub open spec fn wf(self) -> bool {
        &&& self.transactions@.len() > 0
        &&& self.nonce@.len() == 32
        &&& self.commitment@.len() == 32
        &&& self.commitment@ == commitment_of(payload_seq(self.transactions@), self.nonce@)
    }

    /// Seals `transactions` into a batch: a fresh random identifier, a fresh
    /// random 32-byte nonce, and the commitment over the payloads and that
    /// nonce.  The envelopes keep the order they were handed in; the caller
    /// shuffles them into forwarding order afterwards.
    pub fn new(transactions: Vec<TransactionEnvelope>, sealed_at_millis: u64) -> (r: Self)
        requires
            transactions@.len() > 0,
        ensures
            r.wf(),
            r.transactions == transactions,
            r.timestamp_millis == sealed_at_millis,
            r.commitment@.len() == 32,
            r.id@.len() == 36,
    {
        let id = fresh_batch_id();
        let nonce = generate_nonce();
        let commitment = compute_commitment(&transactions, &nonce);
        Self { id, transactions, commitment, timestamp_millis: sealed_at_millis, nonce }
    }
}

} // verus!
