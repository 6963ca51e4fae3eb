use vstd::prelude::*;

verus! {

/// Models direct submission: each of `num_transactions` transactions is
/// observed by a relay at a precise offset of 10 ms per transaction from
/// `base_time_millis`, so observation times correlate exactly with
/// submission order.
pub fn simulate_direct_submission(num_transactions: usize, base_time_millis: u64) -> (r: Vec<
    (usize, u64),
>)
    requires
        base_time_millis + 10 * num_transactions <= u64::MAX,
    ensures
        r@.len() == num_transactions,
        forall|i: int|
            0 <= i < num_transactions ==> #[trigger] r@[i] == (
                i as usize,
                (base_time_millis + 10 * i) as u64,
            ),
{
    let mut transactions: Vec<(usize, u64)> = Vec::new();
    let mut i: usize = 0;
    while i < num_transactions
        invariant
            i <= num_transactions,
            base_time_millis + 10 * num_transactions <= u64::MAX,
            transactions@.len() == i,
            forall|j: int|
                0 <= j < i ==> #[trigger] transactions@[j] == (
                    j as usize,
                    (base_time_millis + 10 * j) as u64,
                ),
        decreases num_transactions - i,
    {
        let submission_time: u64 = base_time_millis + (i as u64) * 10;
        transactions.push((i, submission_time));
        i += 1;
    }
    transactions
}

/// Models batched submission: a relay observes a transaction only when its
/// batch is released, at 100 ms per batch window from `base_time_millis`,
/// plus a 5 ms spread within the batch.  Observation times therefore group
/// by batch instead of following submission order.
pub fn simulate_batched_submission(
    num_transactions: usize,
    base_time_millis: u64,
    batch_size: usize,
) -> (r: Vec<(usize, u64)>)
    requires
        num_transactions > 0 ==> batch_size > 0,
        num_transactions > 0 ==> base_time_millis + (num_transactions / batch_size) * 100
            + batch_size * 5 <= u64::MAX,
    ensures
        r@.len() == num_transactions,
        forall|i: int|
            0 <= i < num_transactions ==> #[trigger] r@[i] == (
                i as usize,
                (base_time_millis + (i / batch_size as int) * 100 + (i % batch_size as int)
                    * 5) as u64,
            ),
{
    let mut transactions: Vec<(usize, u64)> = Vec::new();
    let mut i: usize = 0;
    while i < num_transactions
        invariant
            i <= num_transactions,
            num_transactions > 0 ==> batch_size > 0,
            num_transactions > 0 ==> base_time_millis + (num_transactions / batch_size) * 100
                + batch_size * 5 <= u64::MAX,
            transactions@.len() == i,
            forall|j: int|
                0 <= j < i ==> #[trigger] transactions@[j] == (
                    j as usize,
                    (base_time_millis + (j / batch_size as int) * 100 + (j % batch_size as int)
                        * 5) as u64,
                ),
        decreases num_transactions - i,
    {
        let batch_number: u64 = (i / batch_size) as u64;
        let random_offset: u64 = ((i % batch_size) as u64) * 5;
        proof {
            let bi = i as int;
            let bs = batch_size as int;
            let n = num_transactions as int;
            assert(bi / bs <= n / bs) by (nonlinear_arith)
                requires
                    bs > 0,
                    0 <= bi <= n,
            ;
            assert(0 <= bi % bs < bs) by (nonlinear_arith)
                requires
                    bs > 0,
                    bi >= 0,
            ;
        }
        let submission_time: u64 = base_time_millis + batch_number * 100 + random_offset;
        transactions.push((i, submission_time));
        i += 1;
    }
    transactions
}

} // verus!
