use penum_ingress::engine::SeedPolicy;
use penum_ingress::permuter::permute;
use penum_ingress::BatchingEngine;
use penum_ingress::TransactionEnvelope;

fn envelope(payload: &[u8]) -> TransactionEnvelope {
    TransactionEnvelope::new(payload.to_vec(), String::new())
}

fn payload_set(envelopes: &[TransactionEnvelope]) -> Vec<Vec<u8>> {
    let mut payloads: Vec<Vec<u8>> = envelopes.iter().map(|e| e.tx_bytes.clone()).collect();
    payloads.sort();
    payloads
}

#[test]
fn test_size_threshold_triggers_exactly_one_seal() {
    let mut engine = BatchingEngine::new(3, 10_000, 0);
    assert!(engine.add_transaction(envelope(b"a"), 1).is_none());
    assert!(engine.add_transaction(envelope(b"b"), 2).is_none());
    let sealed = engine.add_transaction(envelope(b"c"), 3);
    let batch = sealed.expect("third submission must seal");
    assert_eq!(batch.transactions.len(), 3);
    assert_eq!(batch.timestamp_millis, 3);
    assert_eq!(
        payload_set(&batch.transactions),
        vec![b"a".to_vec(), b"b".to_vec(), b"c".to_vec()]
    );
    assert_eq!(engine.pending_transactions.len(), 0);
    // The next submission starts a fresh pending set; no second seal.
    assert!(engine.add_transaction(envelope(b"d"), 4).is_none());
    assert_eq!(engine.pending_transactions.len(), 1);
}

#[test]
fn test_time_window_seals_true_pending_count() {
    let mut engine = BatchingEngine::new(10, 1_000, 0);
    assert!(engine.add_transaction(envelope(b"a"), 100).is_none());
    assert!(engine.add_transaction(envelope(b"b"), 200).is_none());
    // Window not yet elapsed: nothing seals, nothing changes.
    assert!(engine.check_time_window(999).is_none());
    assert_eq!(engine.pending_transactions.len(), 2);
    // Window elapsed: exactly one seal with the true pending count.
    let batch = engine.check_time_window(1_200).expect("window elapsed");
    assert_eq!(batch.transactions.len(), 2);
    assert_eq!(batch.timestamp_millis, 1_200);
    assert_eq!(engine.pending_transactions.len(), 0);
    // Nothing pending: the next elapsed window seals nothing.
    assert!(engine.check_time_window(9_999).is_none());
}

#[test]
fn test_time_window_empty_pending_no_seal() {
    let mut engine = BatchingEngine::new(10, 1_000, 0);
    assert!(engine.check_time_window(5_000).is_none());
}

#[test]
fn test_no_envelope_lost_or_duplicated_across_seals() {
    let mut engine = BatchingEngine::new(3, 1_000, 0);
    let payloads: Vec<Vec<u8>> = (0u8..7).map(|i| vec![i, i + 1]).collect();
    let mut sealed_payloads: Vec<Vec<u8>> = Vec::new();
    for (k, p) in payloads.iter().enumerate() {
        if let Some(batch) = engine.add_transaction(envelope(p), k as u64) {
            for tx in &batch.transactions {
                sealed_payloads.push(tx.tx_bytes.clone());
            }
        }
    }
    if let Some(batch) = engine.check_time_window(10_000) {
        for tx in &batch.transactions {
            sealed_payloads.push(tx.tx_bytes.clone());
        }
    }
    // Every submitted payload was sealed exactly once.
    sealed_payloads.sort();
    let mut expected = payloads.clone();
    expected.sort();
    assert_eq!(sealed_payloads, expected);
}

#[test]
fn test_sealed_batch_has_random_nonce_and_id() {
    let mut engine = BatchingEngine::new(1, 1_000, 0);
    let b1 = engine.add_transaction(envelope(b"x"), 1).expect("seal");
    let b2 = engine.add_transaction(envelope(b"x"), 2).expect("seal");
    assert_eq!(b1.nonce.len(), 32);
    assert_eq!(b2.nonce.len(), 32);
    assert_ne!(b1.nonce, b2.nonce);
    assert_eq!(b1.id.len(), 36);
    assert_ne!(b1.id, b2.id);
}

#[test]
fn test_secret_seed_policy_still_seals_and_conserves() {
    let mut engine = BatchingEngine::new(2, 1_000, 0);
    engine.set_seed_policy(SeedPolicy::SecretPerBatch);
    assert!(engine.add_transaction(envelope(b"a"), 1).is_none());
    let batch = engine.add_transaction(envelope(b"b"), 2).expect("seal");
    assert_eq!(
        payload_set(&batch.transactions),
        vec![b"a".to_vec(), b"b".to_vec()]
    );
}

#[test]
fn test_forwarding_order_replays_from_the_batch_id() {
    // The sealed order is the seeded shuffle of the submission order, so a
    // relay that learns the id can reproduce it independently.
    let mut engine = BatchingEngine::new(3, 10_000, 0);
    let submitted = vec![envelope(b"a"), envelope(b"b"), envelope(b"c")];
    assert!(engine.add_transaction(submitted[0].clone(), 1).is_none());
    assert!(engine.add_transaction(submitted[1].clone(), 2).is_none());
    let batch = engine
        .add_transaction(submitted[2].clone(), 3)
        .expect("third submission must seal");
    let seed = penum_ingress::create_seed_from_batch_id(&batch.id);
    let replayed = permute(submitted, &seed);
    let sealed_order: Vec<Vec<u8>> =
        batch.transactions.iter().map(|e| e.tx_bytes.clone()).collect();
    let replayed_order: Vec<Vec<u8>> = replayed.iter().map(|e| e.tx_bytes.clone()).collect();
    assert_eq!(sealed_order, replayed_order);
}

#[test]
fn test_permute_is_deterministic_for_a_seed_and_conserves() {
    let seed = [42u8; 32];
    let input: Vec<TransactionEnvelope> = (0u8..8).map(|i| envelope(&[i])).collect();
    let out1 = permute(input.clone(), &seed);
    let out2 = permute(input.clone(), &seed);
    let order1: Vec<Vec<u8>> = out1.iter().map(|e| e.tx_bytes.clone()).collect();
    let order2: Vec<Vec<u8>> = out2.iter().map(|e| e.tx_bytes.clone()).collect();
    assert_eq!(order1, order2);
    assert_eq!(payload_set(&out1), payload_set(&input));
    let other = permute(input.clone(), &[43u8; 32]);
    assert_eq!(payload_set(&other), payload_set(&input));
}
