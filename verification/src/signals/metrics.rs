//! Enrichment metrics taxonomy: the stable `source` and `result` labels.
use vstd::prelude::*;

verus! {

/// Stable identifier of an enrichment source (the `source` label).
#[derive(Debug, Clone, Copy, PartialEq, Eq, Structural)]
pub enum EnrichmentSource {
    Geo,
    IpReputation,
    Breach,
    Sanctions,
    DisposableEmail,
    ClientSdk,
}

impl EnrichmentSource {
    pub open spec fn spec_label(self) -> Seq<char> {
        match self {
            EnrichmentSource::Geo => "geo"@,
            EnrichmentSource::IpReputation => "ip_reputation"@,
            EnrichmentSource::Breach => "breach"@,
            EnrichmentSource::Sanctions => "sanctions"@,
            EnrichmentSource::DisposableEmail => "disposable_email"@,
            EnrichmentSource::ClientSdk => "client_sdk"@,
        }
    }

    /// The `source` label value.
    pub fn as_label(self) -> (r: &'static str)
        ensures
            r@ == self.spec_label(),
    {
        match self {
            EnrichmentSource::Geo => "geo",
            EnrichmentSource::IpReputation => "ip_reputation",
            EnrichmentSource::Breach => "breach",
            EnrichmentSource::Sanctions => "sanctions",
            EnrichmentSource::DisposableEmail => "disposable_email",
            EnrichmentSource::ClientSdk => "client_sdk",
        }
    }
}

/// Outcome of a classification call; `Unknown` means it could not be
/// evaluated (missing input, timeout).
#[derive(Debug, Clone, Copy, PartialEq, Eq, Structural)]
pub enum ClassificationResult {
    Matched,
    NotMatched,
    Unknown,
}

impl ClassificationResult {
    pub open spec fn spec_label(self) -> Seq<char> {
        match self {
            ClassificationResult::Matched => "matched"@,
            ClassificationResult::NotMatched => "not_matched"@,
            ClassificationResult::Unknown => "unknown"@,
        }
    }

    /// The `result` label value.
    pub fn as_label(self) -> (r: &'static str)
        ensures
            r@ == self.spec_label(),
    {
        match self {
            ClassificationResult::Matched => "matched",
            ClassificationResult::NotMatched => "not_matched",
            ClassificationResult::Unknown => "unknown",
        }
    }
}

/// The classification result of a yes/no answer that may be missing.
pub open spec fn spec_bool_result(v: Option<bool>) -> ClassificationResult {
    match v {
        Some(true) => ClassificationResult::Matched,
        Some(false) => ClassificationResult::NotMatched,
        None => ClassificationResult::Unknown,
    }
}

/// Map an optional yes/no answer to its classification result.
pub fn bool_result(v: Option<bool>) -> (r: ClassificationResult)
    ensures
        r == spec_bool_result(v),
{
    match v {
        Some(true) => ClassificationResult::Matched,
        Some(false) => ClassificationResult::NotMatched,
        None => ClassificationResult::Unknown,
    }
}

/// Bump the classification counter. This build emits no metrics.
pub fn record_classification(source: EnrichmentSource, result: ClassificationResult) {
}

/// Bump the enrichment-errors counter. This build emits no metrics.
pub fn record_error(source: EnrichmentSource) {
}

} // verus!
