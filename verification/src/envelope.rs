use vstd::prelude::*;

verus! {

/// A single wrapped transaction payload awaiting batching, together with the
/// metadata assigned when it was submitted.
#[derive(Clone, Debug)]
pub struct TransactionEnvelope {
    pub tx_bytes: Vec<u8>,
    pub batch_id: String,
    pub envelope_version: u32,
}

impl TransactionEnvelope {
    /// A well-formed envelope wraps a non-empty payload.
    pub open spec fn wf(self) -> bool {
        self.tx_bytes@.len() > 0
    }

    pub fn new(tx_bytes: Vec<u8>, batch_id: String) -> (r: Self)
        ensures
            r.tx_bytes == tx_bytes,
            r.batch_id == batch_id,
            r.envelope_version == 1,
    {
        Self { tx_bytes, batch_id, envelope_version: 1 }
    }
}

/// The payloads carried by a sequence of envelopes, in the same order.
pub open spec fn payload_seq(envelopes: Seq<TransactionEnvelope>) -> Seq<Seq<u8>> {
    envelopes.map_values(|e: TransactionEnvelope| e.tx_bytes@)
}

} // verus!
