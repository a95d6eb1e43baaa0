//! The per-run parameters, loaded once at process start and reused
//! unchanged by every cycle.

use vstd::prelude::*;

verus! {

/// The run's parameters: the provider credential, the owned (domain,
/// record name, record kind) triple, the instance tag that selects the
/// desired addresses, and the time-to-live given to records at creation.
/// The time-to-live is used only when a record is created; an existing
/// record's differing time-to-live is never corrected.
#[derive(Debug, Clone, PartialEq, Eq)]
pub struct Config {
    pub api_key: String,
    pub domain_name: String,
    pub droplet_tag: String,
    pub record_name: String,
    pub record_kind: String,
    pub record_ttl: u32,
}

impl Config {
    /// A configuration from its six parameters, kept as given.
    pub fn new(
        api_key: String,
        domain_name: String,
        droplet_tag: String,
        record_name: String,
        record_kind: String,
        record_ttl: u32,
    ) -> (c: Config)
        ensures
            c.api_key@ == api_key@,
            c.domain_name@ == domain_name@,
            c.droplet_tag@ == droplet_tag@,
            c.record_name@ == record_name@,
            c.record_kind@ == record_kind@,
            c.record_ttl == record_ttl,
    {
        Config { api_key, domain_name, droplet_tag, record_name, record_kind, record_ttl }
    }
}

} // verus!
