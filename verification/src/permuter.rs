use crate::crypto::{sha256_hash, sha256_of};
use crate::envelope::TransactionEnvelope;
use vstd::prelude::*;
use vstd::string::StringSliceAdditionalSpecFns;

verus! {

/// The order into which a seeded shuffle of `s` settles.  The function is
/// named here and never defined: the generator is deterministic, so the
/// order is a function of the input and the seed alone, and every contract
/// that speaks of a forwarding order speaks of this name.
pub uninterp spec fn shuffle_of(s: Seq<TransactionEnvelope>, seed: Seq<u8>) -> Seq<
    TransactionEnvelope,
>;

/// Relies on rand's `SeedableRng::from_seed` for `StdRng` and on
/// `SliceRandom::shuffle`: `StdRng` is deterministic from its 32-byte seed,
/// so the resulting order is a function of the input and the seed alone, and
/// the shuffle is a Fisher-Yates pass that only swaps elements in place, so
/// the vector afterwards holds exactly the elements it held before.
#[verifier::external_body]
fn shuffle_with_seed(v: &mut Vec<TransactionEnvelope>, seed: &[u8; 32])
    ensures
        final(v)@ == shuffle_of(old(v)@, seed@),
        final(v)@.to_multiset() == old(v)@.to_multiset(),
        final(v)@.len() == old(v)@.len(),
{
    let mut rng = <rand::rngs::StdRng as rand::SeedableRng>::from_seed(*seed);
    rand::seq::SliceRandom::shuffle(v.as_mut_slice(), &mut rng)
}

/// Derives the shuffle seed by hashing the batch id.  The permutation is
/// thereby reproducible from the id alone — and equally predictable by anyone
/// who learns the id, which accompanies the commitment; the shuffle therefore
/// defends against timing correlation, not order correlation.  A sealed
/// batch can instead be shuffled from an independently random secret seed
/// (see `SeedPolicy` on the batching engine).
pub fn create_seed_from_batch_id(batch_id: &str) -> (r: [u8; 32])
    ensures
        r@ == sha256_of(batch_id.spec_bytes()),
{
    broadcast use vstd::array::group_array_axioms;

    let mut seed = [0u8; 32];
    let hash = sha256_hash(batch_id.as_bytes());
    let n: usize = if hash.len() < 32 { hash.len() } else { 32 };
    let mut i: usize = 0;
    while i < n
        invariant
            n <= 32,
            n <= hash@.len(),
            i <= n,
            hash@ == sha256_of(batch_id.spec_bytes()),
            hash@.len() == 32,
            n == 32,
            seed@.len() == 32,
            forall|j: int| 0 <= j < i ==> seed@[j] == hash@[j],
        decreases n - i,
    {
        seed[i] = hash[i];
        i += 1;
    }
    assert(seed@ =~= sha256_of(batch_id.spec_bytes()));
    seed
}

/// Applies to `envelopes` the permutation that the generator seeded with
/// `seed` draws: exactly the order [`shuffle_of`] names, so the same seed
/// and the same input always give the same order, and no envelope is lost
/// or duplicated.
pub fn permute(envelopes: Vec<TransactionEnvelope>, seed: &[u8; 32]) -> (r: Vec<TransactionEnvelope>)
    ensures
        r@ == shuffle_of(envelopes@, seed@),
        r@.to_multiset() == envelopes@.to_multiset(),
        r@.len() == envelopes@.len(),
{
    let mut v = envelopes;
    shuffle_with_seed(&mut v, seed);
    v
}

/// Copies a 32-byte vector into the fixed-size seed array that the
/// generator expects.
pub fn seed_from_bytes(bytes: &Vec<u8>) -> (r: [u8; 32])
    requires
        bytes@.len() == 32,
    ensures
        r@ == bytes@,
{
    broadcast use vstd::array::group_array_axioms;

    let mut seed = [0u8; 32];
    let mut i: usize = 0;
    while i < 32
        invariant
            i <= 32,
            bytes@.len() == 32,
            seed@.len() == 32,
            forall|j: int| 0 <= j < i ==> seed@[j] == bytes@[j],
        decreases 32 - i,
    {
        seed[i] = bytes[i];
        i += 1;
    }
    assert(seed@ =~= bytes@);
    seed
}

} // verus!
