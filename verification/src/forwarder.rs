use vstd::prelude::*;

verus! {

/// The set of relay endpoints a sealed batch is handed to.  The delivery
/// itself — the network hop, retries, per-destination failure handling — is
/// the transport collaborator's concern and lives outside this library.
#[derive(Debug)]
pub struct RelayForwarder {
    pub relays: Vec<String>,
}

impl RelayForwarder {
    pub fn new(relay_urls: Vec<String>) -> (r: Self)
        ensures
            r.relays == relay_urls,
    {
        Self { relays: relay_urls }
    }
}

} // verus!
