use crate::batch::TransactionBatch;
use crate::commitment::{commitment_of, verify_commitment};
use crate::envelope::payload_seq;
use vstd::prelude::*;

verus! {

/// One record per sealed batch: the batch's id and its commitment.
/// Append-only, never mutated.
#[derive(Clone, Debug)]
pub struct CommitmentRecord {
    pub batch_id: String,
    pub commitment: Vec<u8>,
}

/// The commitment stored for `id`, if any: the first record carrying it.
pub open spec fn lookup(records: Seq<CommitmentRecord>, id: Seq<char>) -> Option<Seq<u8>>
    decreases records.len(),
{
    if records.len() == 0 {
        None
    } else if records[0].batch_id@ == id {
        Some(records[0].commitment@)
    } else {
        lookup(records.drop_first(), id)
    }
}

/// What a reveal check of `batch` against `records` yields: false when no
/// commitment is recorded for the batch's id, else whether the recorded
/// commitment equals the one recomputed from the batch's actual contents.
pub open spec fn verify_reveal_spec(records: Seq<CommitmentRecord>, batch: TransactionBatch) -> bool {
    match lookup(records, batch.id@) {
        None => false,
        Some(c) => c == commitment_of(payload_seq(batch.transactions@), batch.nonce@),
    }
}

/// The outcome of a reveal check, surfacing the two failure signals: a batch
/// never committed (a protocol violation upstream) and a batch whose
/// contents no longer recompute to the recorded commitment (tampering or a
/// construction bug; such a batch must not be forwarded).
#[derive(Clone, Copy, Debug, PartialEq, Eq, Structural)]
pub enum RevealOutcome {
    Valid,
    CommitmentNotFound,
    CommitmentMismatch,
}

/// Records each sealed batch's commitment before the batch is disclosed and
/// later verifies that a claimed reveal recomputes to the recorded value.
#[derive(Debug)]
pub struct CommitRevealPipeline {
    pub commitments: Vec<CommitmentRecord>,
}

impl CommitRevealPipeline {
    pub fn new() -> (r: Self)
        ensures
            r.commitments@.len() == 0,
    {
        Self { commitments: Vec::new() }
    }

    /// Appends the batch's commitment record.  Called once per batch, before
    /// the batch is disclosed externally; earlier records are never touched.
    pub fn commit_batch(&mut self, batch: &TransactionBatch)
        ensures
            final(self).commitments@.len() == old(self).commitments@.len() + 1,
            final(self).commitments@.subrange(0, old(self).commitments@.len() as int) == old(self).commitments@,
            final(self).commitments@.last().batch_id@ == batch.id@,
            final(self).commitments@.last().commitment@ == batch.commitment@,
    {
        let record = CommitmentRecord {
            batch_id: clone_string(&batch.id),
            commitment: crate::commitment::clone_bytes(&batch.commitment),
        };
        self.commitments.push(record);
        proof {
            assert(self.commitments@.subrange(0, old(self).commitments@.len() as int) =~= old(self).commitments@);
        }
    }

    /// Looks the batch's id up among the recorded commitments; absent means
    /// false — never "valid by default" — and present means the commitment
    /// is recomputed from the batch's actual envelopes and nonce and
    /// compared exactly.
    pub fn verify_reveal(&self, batch: &TransactionBatch) -> (r: bool)
        ensures
            r == verify_reveal_spec(self.commitments@, *batch),
    {
        match self.check_reveal(batch) {
            RevealOutcome::Valid => true,
            RevealOutcome::CommitmentNotFound => false,
            RevealOutcome::CommitmentMismatch => false,
        }
    }

    /// The reveal check with its failure signals told apart: `Valid` exactly
    /// when [`Self::verify_reveal`] returns true, `CommitmentNotFound` when
    /// the id was never recorded, `CommitmentMismatch` when the recorded and
    /// the recomputed commitment differ.
    pub fn check_reveal(&self, batch: &TransactionBatch) -> (r: RevealOutcome)
        ensures
            r == (match lookup(self.commitments@, batch.id@) {
                None => RevealOutcome::CommitmentNotFound,
                Some(c) => if c == commitment_of(payload_seq(batch.transactions@), batch.nonce@) {
                    RevealOutcome::Valid
                } else {
                    RevealOutcome::CommitmentMismatch
                },
            }),
    {
        let mut i: usize = 0;
        proof {
            assert(self.commitments@.skip(0) =~= self.commitments@);
        }
        while i < self.commitments.len()
            invariant
                i <= self.commitments@.len(),
                lookup(self.commitments@, batch.id@) == lookup(self.commitments@.skip(i as int), batch.id@),
            decreases self.commitments@.len() - i,
        {
            proof {
                assert(self.commitments@.skip(i as int)[0] == self.commitments@[i as int]);
                assert(self.commitments@.skip(i as int).drop_first() =~= self.commitments@.skip(i + 1));
            }
            if self.commitments[i].batch_id == batch.id {
                proof {
                    assert(self.commitments@.skip(i as int).len() > 0);
                    assert(lookup(self.commitments@.skip(i as int), batch.id@) == Some(
                        self.commitments@[i as int].commitment@,
                    ));
                }
                let ok = verify_commitment(
                    &batch.transactions,
                    &batch.nonce,
                    &self.commitments[i].commitment,
                );
                if ok {
                    return RevealOutcome::Valid;
                } else {
                    return RevealOutcome::CommitmentMismatch;
                }
            }
            i += 1;
        }
        proof {
            assert(self.commitments@.skip(self.commitments@.len() as int).len() == 0);
        }
        RevealOutcome::CommitmentNotFound
    }
}

/// Copies a string; the copy carries the same characters.
fn clone_string(s: &String) -> (r: String)
    ensures
        r@ == s@,
{
    s.clone()
}

/// How a lookup behaves across an append: an appended record is found
/// exactly when no earlier record already carries the id.
pub proof fn lemma_lookup_push(records: Seq<CommitmentRecord>, rec: CommitmentRecord, id: Seq<char>)
    ensures
        lookup(records.push(rec), id) == (if lookup(records, id) is Some {
            lookup(records, id)
        } else if rec.batch_id@ == id {
            Some(rec.commitment@)
        } else {
            None
        }),
    decreases records.len(),
{
    if records.len() == 0 {
        assert(records.push(rec)[0] == rec);
        assert(records.push(rec).drop_first() =~= Seq::<CommitmentRecord>::empty());
    } else {
        assert(records.push(rec)[0] == records[0]);
        assert(records.push(rec).drop_first() =~= records.drop_first().push(rec));
        lemma_lookup_push(records.drop_first(), rec, id);
    }
}

/// Reveal round trip: recording a well-formed batch in a ledger that does
/// not yet know its id, and then checking that very batch, always succeeds —
/// the lookup finds the appended commitment, and the batch's invariant says
/// the recomputation reproduces it.
pub proof fn lemma_commit_reveal_round_trip(
    records: Seq<CommitmentRecord>,
    rec: CommitmentRecord,
    batch: TransactionBatch,
)
    requires
        batch.wf(),
        lookup(records, batch.id@) is None,
        rec.batch_id@ == batch.id@,
        rec.commitment@ == batch.commitment@,
    ensures
        verify_reveal_spec(records.push(rec), batch),
{
    lemma_lookup_push(records, rec, batch.id@);
}

/// A batch whose id was never recorded never verifies: the reveal check of
/// such a batch is false, whatever the batch's contents.
pub proof fn lemma_unknown_batch_rejected(records: Seq<CommitmentRecord>, batch: TransactionBatch)
    requires
        lookup(records, batch.id@) is None,
    ensures
        !verify_reveal_spec(records, batch),
{
}

} // verus!
