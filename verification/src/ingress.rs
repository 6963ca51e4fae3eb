use crate::batch::TransactionBatch;
use crate::commitment::lemma_map_values_multiset;
use crate::crypto::fresh_batch_id;
use crate::engine::BatchingEngine;
use crate::envelope::{payload_seq, TransactionEnvelope};
use crate::forwarder::RelayForwarder;
use crate::ledger::{verify_reveal_spec, CommitRevealPipeline};
use crate::metrics::MetricsCollector;
use vstd::prelude::*;

verus! {

/// The ingress service: accepts transaction submissions, seals them into
/// committed batches, and queues each sealed batch for the transport
/// collaborator, its commitment recorded before any disclosure.
///
/// The whole service is one exclusively-owned unit of state; callers that
/// share it across threads put it behind one mutual-exclusion domain, which
/// makes every seal's drain-and-reset indivisible.
#[derive(Debug)]
pub struct PenumIngress {
    pub batching_engine: BatchingEngine,
    pub commit_reveal_pipeline: CommitRevealPipeline,
    pub relay_forwarder: RelayForwarder,
    pub metrics_collector: MetricsCollector,
    pub sealed_outbox: Vec<TransactionBatch>,
}

impl PenumIngress {
    pub fn new(
        max_batch_size: usize,
        batch_time_window_millis: u64,
        relay_urls: Vec<String>,
        now_millis: u64,
    ) -> (r: Self)
        ensures
            r.batching_engine.max_batch_size == max_batch_size,
            r.batching_engine.batch_time_window_millis == batch_time_window_millis,
            r.batching_engine.pending_transactions@.len() == 0,
            r.batching_engine.last_batch_time_millis == now_millis,
            r.commit_reveal_pipeline.commitments@.len() == 0,
            r.relay_forwarder.relays == relay_urls,
            r.metrics_collector.batch_sizes@.len() == 0,
            r.metrics_collector.forwarding_latencies_millis@.len() == 0,
            r.sealed_outbox@.len() == 0,
    {
        Self {
            batching_engine: BatchingEngine::new(max_batch_size, batch_time_window_millis, now_millis),
            commit_reveal_pipeline: CommitRevealPipeline::new(),
            relay_forwarder: RelayForwarder::new(relay_urls),
            metrics_collector: MetricsCollector::new(),
            sealed_outbox: Vec::new(),
        }
    }

    /// Commits a freshly sealed batch, records its size, and queues it for
    /// the transport collaborator — commitment first, disclosure after.
    fn process_batch(&mut self, batch: TransactionBatch)
        ensures
            final(self).batching_engine == old(self).batching_engine,
            final(self).relay_forwarder == old(self).relay_forwarder,
            final(self).commit_reveal_pipeline.commitments@.len() == old(self).commit_reveal_pipeline.commitments@.len() + 1,
            final(self).commit_reveal_pipeline.commitments@.subrange(
                0,
                old(self).commit_reveal_pipeline.commitments@.len() as int,
            ) == old(self).commit_reveal_pipeline.commitments@,
            final(self).commit_reveal_pipeline.commitments@.last().batch_id@ == batch.id@,
            final(self).commit_reveal_pipeline.commitments@.last().commitment@
                == batch.commitment@,
            final(self).sealed_outbox@ == old(self).sealed_outbox@.push(batch),
            final(self).metrics_collector.batch_sizes@ == old(self).metrics_collector.batch_sizes@.push(batch.transactions@.len() as usize),
            final(self).metrics_collector.forwarding_latencies_millis@ == old(self).metrics_collector.forwarding_latencies_millis@,
    {
        self.commit_reveal_pipeline.commit_batch(&batch);
        let size = batch.transactions.len();
        self.metrics_collector.record_batch_size(size);
        self.sealed_outbox.push(batch);
    }

    /// Validates and enqueues one transaction.  An empty payload is rejected
    /// as an invalid envelope and changes nothing.  If the submission brings
    /// the pending count to the size threshold, the same call seals a batch
    /// holding every pending payload and this one, commits it, and queues it
    /// in the outbox.
    pub fn submit_transaction(&mut self, tx_bytes: Vec<u8>, now_millis: u64) -> (r: Result<
        String,
        String,
    >)
        ensures
            old(self).batching_engine.same_config(final(self).batching_engine),
            final(self).relay_forwarder == old(self).relay_forwarder,
            r is Err <==> tx_bytes@.len() == 0,
            r matches Err(m) ==> m@ == "Transaction bytes cannot be empty"@,
            r matches Ok(m) ==> m@ == "Transaction accepted for batching"@,
            r is Err ==> *final(self) == *old(self),
            r is Ok ==> (if old(self).batching_engine.pending_transactions@.len() + 1 >= old(self).batching_engine.max_batch_size {
                &&& final(self).sealed_outbox@.len() == old(self).sealed_outbox@.len() + 1
                &&& final(self).sealed_outbox@.subrange(0, old(self).sealed_outbox@.len() as int)
                    == old(self).sealed_outbox@
                &&& final(self).sealed_outbox@.last().wf()
                &&& payload_seq(final(self).sealed_outbox@.last().transactions@).to_multiset()
                    == payload_seq(old(self).batching_engine.pending_transactions@).push(
                    tx_bytes@,
                ).to_multiset()
                &&& final(self).sealed_outbox@.last().timestamp_millis == now_millis
                &&& final(self).batching_engine.pending_transactions@.len() == 0
                &&& final(self).batching_engine.last_batch_time_millis == now_millis
                &&& final(self).commit_reveal_pipeline.commitments@.len() == old(self).commit_reveal_pipeline.commitments@.len() + 1
                &&& final(self).commit_reveal_pipeline.commitments@.last().batch_id@ == final(self).sealed_outbox@.last().id@
                &&& final(self).commit_reveal_pipeline.commitments@.last().commitment@ == final(self).sealed_outbox@.last().commitment@
                &&& final(self).metrics_collector.batch_sizes@ == old(self).metrics_collector.batch_sizes@.push(
                    (old(self).batching_engine.pending_transactions@.len() + 1) as usize,
                ).push(0usize)
            } else {
                &&& final(self).sealed_outbox@ == old(self).sealed_outbox@
                &&& final(self).commit_reveal_pipeline.commitments@ == old(self).commit_reveal_pipeline.commitments@
                &&& final(self).batching_engine.pending_transactions@.len() == old(self).batching_engine.pending_transactions@.len() + 1
                &&& payload_seq(final(self).batching_engine.pending_transactions@) == payload_seq(
                    old(self).batching_engine.pending_transactions@,
                ).push(tx_bytes@)
                &&& final(self).batching_engine.last_batch_time_millis == old(self).batching_engine.last_batch_time_millis
                &&& final(self).metrics_collector.batch_sizes@ == old(self).metrics_collector.batch_sizes@.push(
                    (old(self).batching_engine.pending_transactions@.len() + 1) as usize,
                )
            }),
            r is Ok ==> final(self).metrics_collector.forwarding_latencies_millis@ == old(self).metrics_collector.forwarding_latencies_millis@,
    {
        if tx_bytes.is_empty() {
            return Err("Transaction bytes cannot be empty".to_owned());
        }
        let batch_id = fresh_batch_id();
        let envelope = TransactionEnvelope::new(tx_bytes, batch_id);
        let ghost env = envelope;
        let ghost old_pending = self.batching_engine.pending_transactions@;
        let sealed = self.batching_engine.add_transaction(envelope, now_millis);
        match sealed {
            Some(batch) => {
                proof {
                    lemma_map_values_multiset(
                        batch.transactions@,
                        old_pending.push(env),
                        |e: TransactionEnvelope| e.tx_bytes@,
                    );
                    assert(payload_seq(old_pending.push(env)) =~= payload_seq(old_pending).push(
                        env.tx_bytes@,
                    ));
                }
                self.process_batch(batch);
                let pending_len = self.batching_engine.pending_transactions.len();
                self.metrics_collector.record_batch_size(pending_len);
            },
            None => {
                proof {
                    assert(payload_seq(old_pending.push(env)) =~= payload_seq(old_pending).push(
                        env.tx_bytes@,
                    ));
                }
                let pending_len = self.batching_engine.pending_transactions.len();
                self.metrics_collector.record_batch_size(pending_len);
            },
        }
        Ok("Transaction accepted for batching".to_owned())
    }

    /// Seals the pending envelopes if the time window has elapsed, commits
    /// the batch and queues it for transport.  Does nothing when the window
    /// has not elapsed or nothing is pending.
    pub fn process_batches(&mut self, now_millis: u64)
        ensures
            old(self).batching_engine.same_config(final(self).batching_engine),
            final(self).relay_forwarder == old(self).relay_forwarder,
            if old(self).batching_engine.window_elapsed(now_millis) && old(self).batching_engine.pending_transactions@.len() > 0 {
                &&& final(self).sealed_outbox@.len() == old(self).sealed_outbox@.len() + 1
                &&& final(self).sealed_outbox@.subrange(0, old(self).sealed_outbox@.len() as int)
                    == old(self).sealed_outbox@
                &&& final(self).sealed_outbox@.last().wf()
                &&& payload_seq(final(self).sealed_outbox@.last().transactions@).to_multiset()
                    == payload_seq(old(self).batching_engine.pending_transactions@).to_multiset()
                &&& final(self).sealed_outbox@.last().transactions@.len() == old(self).batching_engine.pending_transactions@.len()
                &&& final(self).sealed_outbox@.last().timestamp_millis == now_millis
                &&& final(self).batching_engine.pending_transactions@.len() == 0
                &&& final(self).batching_engine.last_batch_time_millis == now_millis
                &&& final(self).commit_reveal_pipeline.commitments@.len() == old(self).commit_reveal_pipeline.commitments@.len() + 1
                &&& final(self).commit_reveal_pipeline.commitments@.last().batch_id@ == final(self).sealed_outbox@.last().id@
                &&& final(self).commit_reveal_pipeline.commitments@.last().commitment@ == final(self).sealed_outbox@.last().commitment@
                &&& final(self).metrics_collector.batch_sizes@ == old(self).metrics_collector.batch_sizes@.push(
                    old(self).batching_engine.pending_transactions@.len() as usize,
                )
                &&& final(self).metrics_collector.forwarding_latencies_millis@ == old(self).metrics_collector.forwarding_latencies_millis@
            } else {
                *final(self) == *old(self)
            },
    {
        let ghost old_pending = self.batching_engine.pending_transactions@;
        let sealed = self.batching_engine.check_time_window(now_millis);
        match sealed {
            Some(batch) => {
                proof {
                    lemma_map_values_multiset(
                        batch.transactions@,
                        old_pending,
                        |e: TransactionEnvelope| e.tx_bytes@,
                    );
                }
                self.process_batch(batch);
            },
            None => {},
        }
    }

    /// Hands the committed batches over for forwarding, in seal order, and
    /// empties the outbox.
    pub fn take_sealed_batches(&mut self) -> (r: Vec<TransactionBatch>)
        ensures
            r@ == old(self).sealed_outbox@,
            final(self).sealed_outbox@.len() == 0,
            final(self).batching_engine == old(self).batching_engine,
            final(self).commit_reveal_pipeline == old(self).commit_reveal_pipeline,
            final(self).relay_forwarder == old(self).relay_forwarder,
            final(self).metrics_collector == old(self).metrics_collector,
    {
        let mut drained: Vec<TransactionBatch> = Vec::new();
        core::mem::swap(&mut self.sealed_outbox, &mut drained);
        drained
    }

    /// Verifies a claimed reveal against the recorded commitments.
    pub fn verify_batch(&self, batch: &TransactionBatch) -> (r: bool)
        ensures
            r == verify_reveal_spec(self.commit_reveal_pipeline.commitments@, *batch),
    {
        self.commit_reveal_pipeline.verify_reveal(batch)
    }

    /// Records how long the transport collaborator took to forward a batch.
    pub fn record_forwarding_latency(&mut self, latency_millis: u64)
        ensures
            final(self).metrics_collector.forwarding_latencies_millis@ == old(self).metrics_collector.forwarding_latencies_millis@.push(latency_millis),
            final(self).metrics_collector.batch_sizes@ == old(self).metrics_collector.batch_sizes@,
            final(self).batching_engine == old(self).batching_engine,
            final(self).commit_reveal_pipeline == old(self).commit_reveal_pipeline,
            final(self).relay_forwarder == old(self).relay_forwarder,
            final(self).sealed_outbox@ == old(self).sealed_outbox@,
    {
        self.metrics_collector.record_forwarding_latency(latency_millis);
    }
}

} // verus!
