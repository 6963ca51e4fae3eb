use penum_ingress::commitment::{compute_commitment, lex_le, sort_digests, verify_commitment};
use penum_ingress::create_seed_from_batch_id;
use penum_ingress::TransactionEnvelope;

fn envelope(payload: &[u8]) -> TransactionEnvelope {
    TransactionEnvelope::new(payload.to_vec(), String::new())
}

#[test]
fn test_commitment_order_independence() {
    let nonce = vec![7u8; 32];
    let forward = vec![envelope(b"alpha"), envelope(b"beta"), envelope(b"gamma")];
    let rotated = vec![envelope(b"gamma"), envelope(b"alpha"), envelope(b"beta")];
    let reversed = vec![envelope(b"gamma"), envelope(b"beta"), envelope(b"alpha")];
    let c1 = compute_commitment(&forward, &nonce);
    let c2 = compute_commitment(&rotated, &nonce);
    let c3 = compute_commitment(&reversed, &nonce);
    assert_eq!(c1, c2);
    assert_eq!(c1, c3);
}

#[test]
fn test_commitment_binding_on_payloads() {
    // Pseudo-random payload sets from a deterministic generator: any change
    // to a payload changes the commitment.
    let nonce = vec![0u8; 32];
    let mut state: u64 = 0x2545F4914F6CDD1D;
    let mut commitments: Vec<Vec<u8>> = Vec::new();
    for round in 0..16u64 {
        let mut envelopes = Vec::new();
        for k in 0..4u64 {
            state ^= state << 13;
            state ^= state >> 7;
            state ^= state << 17;
            let mut payload = state.to_be_bytes().to_vec();
            payload.push(round as u8);
            payload.push(k as u8);
            envelopes.push(envelope(&payload));
        }
        commitments.push(compute_commitment(&envelopes, &nonce));
    }
    for i in 0..commitments.len() {
        for j in 0..commitments.len() {
            if i != j {
                assert_ne!(commitments[i], commitments[j]);
            }
        }
    }
}

#[test]
fn test_commitment_binding_on_nonce() {
    let envelopes = vec![envelope(b"alpha"), envelope(b"beta")];
    let nonce1 = vec![1u8; 32];
    let nonce2 = {
        let mut n = vec![1u8; 32];
        n[31] = 2;
        n
    };
    let c1 = compute_commitment(&envelopes, &nonce1);
    let c2 = compute_commitment(&envelopes, &nonce2);
    assert_ne!(c1, c2);
}

#[test]
fn test_commitment_is_32_bytes() {
    let envelopes = vec![envelope(b"x")];
    let nonce = vec![0u8; 32];
    assert_eq!(compute_commitment(&envelopes, &nonce).len(), 32);
}

#[test]
fn test_verify_commitment_round_trip_and_mismatch() {
    let envelopes = vec![envelope(b"one"), envelope(b"two")];
    let nonce = vec![9u8; 32];
    let commitment = compute_commitment(&envelopes, &nonce);
    assert!(verify_commitment(&envelopes, &nonce, &commitment));
    let mut tampered = commitment.clone();
    tampered[0] ^= 1;
    assert!(!verify_commitment(&envelopes, &nonce, &tampered));
}

#[test]
fn test_seed_from_batch_id_known_value() {
    // SHA-256 of the empty string, the first 32 bytes of which form the seed.
    let expected: [u8; 32] = [
        0xe3, 0xb0, 0xc4, 0x42, 0x98, 0xfc, 0x1c, 0x14, 0x9a, 0xfb, 0xf4, 0xc8, 0x99, 0x6f, 0xb9,
        0x24, 0x27, 0xae, 0x41, 0xe4, 0x64, 0x9b, 0x93, 0x4c, 0xa4, 0x95, 0x99, 0x1b, 0x78, 0x52,
        0xb8, 0x55,
    ];
    assert_eq!(create_seed_from_batch_id(""), expected);
}

#[test]
fn test_seed_from_batch_id_deterministic() {
    let a = create_seed_from_batch_id("f81d4fae-7dec-11d0-a765-00a0c91e6bf6");
    let b = create_seed_from_batch_id("f81d4fae-7dec-11d0-a765-00a0c91e6bf6");
    let c = create_seed_from_batch_id("f81d4fae-7dec-11d0-a765-00a0c91e6bf7");
    assert_eq!(a, b);
    assert_ne!(a, c);
}

#[test]
fn test_lex_le_orders_digests() {
    assert!(lex_le(&vec![], &vec![1]));
    assert!(lex_le(&vec![1], &vec![1]));
    assert!(lex_le(&vec![1], &vec![2]));
    assert!(!lex_le(&vec![2], &vec![1]));
    assert!(lex_le(&vec![1], &vec![1, 0]));
    assert!(!lex_le(&vec![1, 0], &vec![1]));
    assert!(lex_le(&vec![1, 2, 3], &vec![1, 2, 4]));
}

#[test]
fn test_sort_digests_sorts_lexicographically() {
    let input = vec![vec![2u8, 1], vec![1u8, 9], vec![2u8], vec![1u8, 9]];
    let sorted = sort_digests(&input);
    assert_eq!(sorted, vec![vec![1u8, 9], vec![1u8, 9], vec![2u8], vec![2u8, 1]]);
}
