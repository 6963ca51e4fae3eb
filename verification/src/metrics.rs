use vstd::prelude::*;

verus! {

/// Privacy-safe observability: per-batch size and forwarding-latency
/// observations, recorded fire-and-forget.  Aggregation over these samples
/// is left to the callers that read them out.
#[derive(Debug)]
pub struct MetricsCollector {
    pub batch_sizes: Vec<usize>,
    pub forwarding_latencies_millis: Vec<u64>,
}

impl MetricsCollector {
    pub fn new() -> (r: Self)
        ensures
            r.batch_sizes@.len() == 0,
            r.forwarding_latencies_millis@.len() == 0,
    {
        Self { batch_sizes: Vec::new(), forwarding_latencies_millis: Vec::new() }
    }

    pub fn record_batch_size(&mut self, size: usize)
        ensures
            final(self).batch_sizes@ == old(self).batch_sizes@.push(size),
            final(self).forwarding_latencies_millis@ == old(self).forwarding_latencies_millis@,
    {
        self.batch_sizes.push(size);
    }

    pub fn record_forwarding_latency(&mut self, latency_millis: u64)
        ensures
            final(self).forwarding_latencies_millis@ == old(self).forwarding_latencies_millis@.push(latency_millis),
            final(self).batch_sizes@ == old(self).batch_sizes@,
    {
        self.forwarding_latencies_millis.push(latency_millis);
    }
}

} // verus!
