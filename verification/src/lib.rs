//! An ingress layer that accepts individually submitted transactions and
//! releases them in sealed batches, so that an observer can no longer match
//! a submission to the moment a relay first sees it.
//!
//! Submissions accumulate in a [`BatchingEngine`] until either a size or a
//! time threshold seals them into a [`TransactionBatch`].  Sealing binds the
//! batch's contents with a commitment (a digest over the sorted per-payload
//! digests and a random nonce), records that commitment in a
//! [`CommitRevealPipeline`], and shuffles the envelopes into the forwarding
//! order.  [`PenumIngress`] ties the pieces together.

pub mod analysis;
pub mod batch;
pub mod commitment;
pub mod crypto;
pub mod engine;
pub mod envelope;
pub mod forwarder;
pub mod ingress;
pub mod ledger;
pub mod metrics;
pub mod permuter;

pub use analysis::simulate_batched_submission;
pub use analysis::simulate_direct_submission;
pub use batch::TransactionBatch;
pub use engine::BatchingEngine;
pub use envelope::TransactionEnvelope;
pub use forwarder::RelayForwarder;
pub use ingress::PenumIngress;
pub use ledger::CommitRevealPipeline;
pub use ledger::CommitmentRecord;
pub use metrics::MetricsCollector;
pub use permuter::create_seed_from_batch_id;
