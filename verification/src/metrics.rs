//! Where a tenant's metrics records are kept.

use vstd::prelude::*;
use vstd::string::StringExecFns;

verus! {

/// The key, within a tenant's namespace, of the array of metrics records.
pub const METRICS_KEY: &'static str = "_metrics";

/// `key` in the namespace of `tenant`.
pub open spec fn namespaced(tenant: Seq<char>, key: Seq<char>) -> Seq<char> {
    tenant + ":"@ + key
}

/// `key` in the namespace of `tenant`.
pub fn namespaced_key(tenant: &str, key: &str) -> (full: String)
    ensures
        full@ == namespaced(tenant@, key@),
{
    let mut full = String::from_str(tenant);
    full.append(":");
    full.append(key);
    full
}

/// Collects the metrics of one tenant.
pub struct MetricsCollector {
    tenant: String,
}

impl View for MetricsCollector {
    type V = Seq<char>;

    closed spec fn view(&self) -> Seq<char> {
        self.tenant@
    }
}

impl MetricsCollector {
    /// A collector for `tenant`.
    pub fn new(tenant: String) -> (collector: Self)
        ensures
            collector@ == tenant@,
    {
        Self { tenant }
    }

    /// The tenant whose metrics are collected.
    pub fn tenant(&self) -> (tenant: &str)
        ensures
            tenant@ == self@,
    {
        self.tenant.as_str()
    }

    /// The key under which the tenant's records are appended.
    pub fn key(&self) -> (key: String)
        ensures
            key@ == namespaced(self@, METRICS_KEY@),
    {
        namespaced_key(self.tenant.as_str(), METRICS_KEY)
    }
}

} // verus!
