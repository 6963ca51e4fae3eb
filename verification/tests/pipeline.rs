use penum_ingress::commitment::compute_commitment;
use penum_ingress::ledger::RevealOutcome;
use penum_ingress::BatchingEngine;
use penum_ingress::CommitRevealPipeline;
use penum_ingress::PenumIngress;
use penum_ingress::TransactionEnvelope;

fn envelope(payload: &[u8]) -> TransactionEnvelope {
    TransactionEnvelope::new(payload.to_vec(), String::new())
}

fn seal_one(payloads: &[&[u8]]) -> penum_ingress::TransactionBatch {
    let mut engine = BatchingEngine::new(payloads.len(), 1_000, 0);
    let mut sealed = None;
    for (k, p) in payloads.iter().enumerate() {
        sealed = engine.add_transaction(envelope(p), k as u64);
    }
    sealed.expect("reaching the size threshold seals")
}

#[test]
fn test_reveal_round_trip_after_sealing() {
    let batch = seal_one(&[b"alpha", b"beta", b"gamma"]);
    let mut pipeline = CommitRevealPipeline::new();
    pipeline.commit_batch(&batch);
    assert!(pipeline.verify_reveal(&batch));
    assert_eq!(pipeline.check_reveal(&batch), RevealOutcome::Valid);
}

#[test]
fn test_reveal_fails_after_payload_mutation() {
    let batch = seal_one(&[b"alpha", b"beta"]);
    let mut pipeline = CommitRevealPipeline::new();
    pipeline.commit_batch(&batch);
    let mut tampered = batch.clone();
    tampered.transactions[0].tx_bytes[0] ^= 1;
    assert!(!pipeline.verify_reveal(&tampered));
    assert_eq!(pipeline.check_reveal(&tampered), RevealOutcome::CommitmentMismatch);
}

#[test]
fn test_reveal_fails_after_nonce_mutation() {
    let batch = seal_one(&[b"alpha", b"beta"]);
    let mut pipeline = CommitRevealPipeline::new();
    pipeline.commit_batch(&batch);
    let mut tampered = batch.clone();
    tampered.nonce[31] ^= 1;
    assert!(!pipeline.verify_reveal(&tampered));
}

#[test]
fn test_unknown_batch_never_verifies() {
    let batch = seal_one(&[b"alpha"]);
    let pipeline = CommitRevealPipeline::new();
    assert!(!pipeline.verify_reveal(&batch));
    assert_eq!(pipeline.check_reveal(&batch), RevealOutcome::CommitmentNotFound);

    // Even a ledger holding other batches rejects an unrecorded id.
    let mut pipeline = CommitRevealPipeline::new();
    let other = seal_one(&[b"beta"]);
    pipeline.commit_batch(&other);
    assert!(!pipeline.verify_reveal(&batch));
}

#[test]
fn test_scenario_three_payloads_one_batch() {
    let relays = vec!["https://relay.example".to_string()];
    let mut ingress = PenumIngress::new(3, 10_000, relays, 0);
    ingress.submit_transaction(b"A".to_vec(), 1).unwrap();
    ingress.submit_transaction(b"B".to_vec(), 2).unwrap();
    ingress.submit_transaction(b"C".to_vec(), 3).unwrap();

    let batches = ingress.take_sealed_batches();
    assert_eq!(batches.len(), 1);
    let batch = &batches[0];
    assert_eq!(batch.transactions.len(), 3);
    let mut payloads: Vec<Vec<u8>> =
        batch.transactions.iter().map(|e| e.tx_bytes.clone()).collect();
    payloads.sort();
    assert_eq!(payloads, vec![b"A".to_vec(), b"B".to_vec(), b"C".to_vec()]);

    // The commitment recomputed from the stored nonce and the three payloads
    // equals the batch's commitment field exactly, and the ledger agrees.
    let recomputed = compute_commitment(&batch.transactions, &batch.nonce);
    assert_eq!(recomputed, batch.commitment);
    assert!(ingress.verify_batch(batch));
}

#[test]
fn test_submit_accepts_with_exact_message() {
    let mut ingress = PenumIngress::new(3, 10_000, Vec::new(), 0);
    let result = ingress.submit_transaction(b"A".to_vec(), 1);
    assert_eq!(result, Ok("Transaction accepted for batching".to_string()));
}

#[test]
fn test_submit_empty_payload_rejected() {
    let mut ingress = PenumIngress::new(3, 10_000, Vec::new(), 0);
    let result = ingress.submit_transaction(Vec::new(), 1);
    assert_eq!(result, Err("Transaction bytes cannot be empty".to_string()));
    assert_eq!(ingress.batching_engine.pending_transactions.len(), 0);
}

#[test]
fn test_time_trigger_through_ingress() {
    let mut ingress = PenumIngress::new(10, 1_000, Vec::new(), 0);
    ingress.submit_transaction(b"A".to_vec(), 100).unwrap();
    ingress.submit_transaction(b"B".to_vec(), 200).unwrap();
    ingress.process_batches(999);
    assert_eq!(ingress.sealed_outbox.len(), 0);
    ingress.process_batches(1_500);
    let batches = ingress.take_sealed_batches();
    assert_eq!(batches.len(), 1);
    assert_eq!(batches[0].transactions.len(), 2);
    assert!(ingress.verify_batch(&batches[0]));
}

#[test]
fn test_metrics_record_sizes_and_latencies() {
    let mut ingress = PenumIngress::new(3, 10_000, Vec::new(), 0);
    ingress.submit_transaction(b"A".to_vec(), 1).unwrap();
    ingress.submit_transaction(b"B".to_vec(), 2).unwrap();
    assert_eq!(ingress.metrics_collector.batch_sizes, vec![1, 2]);
    ingress.submit_transaction(b"C".to_vec(), 3).unwrap();
    // Sealing records the batch size, then the emptied pending count.
    assert_eq!(ingress.metrics_collector.batch_sizes, vec![1, 2, 3, 0]);
    ingress.record_forwarding_latency(17);
    assert_eq!(ingress.metrics_collector.forwarding_latencies_millis, vec![17]);
}

#[test]
fn test_envelope_fields() {
    let e = TransactionEnvelope::new(vec![1, 2, 3], "some-id".to_string());
    assert_eq!(e.tx_bytes, vec![1, 2, 3]);
    assert_eq!(e.batch_id, "some-id");
    assert_eq!(e.envelope_version, 1);
}

#[test]
fn test_simulate_direct_submission_exact_times() {
    let times = penum_ingress::simulate_direct_submission(5, 1_000);
    assert_eq!(
        times,
        vec![(0, 1_000), (1, 1_010), (2, 1_020), (3, 1_030), (4, 1_040)]
    );
}

#[test]
fn test_simulate_batched_submission_degenerate_empty() {
    let times = penum_ingress::simulate_batched_submission(0, 0, 0);
    assert!(times.is_empty());
}

#[test]
fn test_simulate_batched_submission_exact_times() {
    let times = penum_ingress::simulate_batched_submission(5, 1_000, 2);
    assert_eq!(
        times,
        vec![(0, 1_000), (1, 1_005), (2, 1_100), (3, 1_105), (4, 1_200)]
    );
}
