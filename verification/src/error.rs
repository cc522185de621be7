//! Engine error surface. Variants "with source" carry the rendered text of
//! the underlying cause next to their own message.
use vstd::prelude::*;
use crate::text;

verus! {

#[derive(Debug)]
pub enum RiskEngineError {
    /// Failure talking to the signal store, no typed cause available.
    StoreError(String),
    /// Store failure whose underlying cause is preserved.
    StoreErrorWithSource { msg: String, source: String },
    /// A store operation exceeded its budget.
    Timeout { ms: u64 },
    /// The context failed a pre-scoring invariant.
    InvalidContext(String),
    /// Invalid context with its cause.
    InvalidContextWithSource { msg: String, source: String },
    /// The policy config does not parse or violates a structural constraint.
    ConfigError(String),
    /// Config error with its cause.
    ConfigErrorWithSource { msg: String, source: String },
    /// A pre-filter rejected the request before scoring (HTTP 429).
    RateLimited(String),
}

/// The display text of an error.
pub open spec fn spec_error_message(e: RiskEngineError) -> Seq<char> {
    match e {
        RiskEngineError::StoreError(m) => "signal store error: "@ + m@,
        RiskEngineError::StoreErrorWithSource { msg, .. } => "signal store error: "@ + msg@,
        RiskEngineError::Timeout { ms } => "signal collection timed out after "@ + text::decimal(ms as nat) + "ms"@,
        RiskEngineError::InvalidContext(m) => "invalid context: "@ + m@,
        RiskEngineError::InvalidContextWithSource { msg, .. } => "invalid context: "@ + msg@,
        RiskEngineError::ConfigError(m) => "invalid policy config: "@ + m@,
        RiskEngineError::ConfigErrorWithSource { msg, .. } => "invalid policy config: "@ + msg@,
        RiskEngineError::RateLimited(m) => "rate limit exceeded: "@ + m@,
    }
}

/// The cause carried by an error, if any.
pub open spec fn spec_error_source(e: RiskEngineError) -> Option<Seq<char>> {
    match e {
        RiskEngineError::StoreErrorWithSource { source, .. } => Some(source@),
        RiskEngineError::InvalidContextWithSource { source, .. } => Some(source@),
        RiskEngineError::ConfigErrorWithSource { source, .. } => Some(source@),
        _ => None,
    }
}

impl RiskEngineError {
    /// A store error carrying its cause.
    pub fn store_with_source(msg: String, source: String) -> (e: Self)
        ensures
            e matches RiskEngineError::StoreErrorWithSource { msg: m, source: s } && m@ == msg@ && s@ == source@,
    {
        RiskEngineError::StoreErrorWithSource { msg, source }
    }

    /// An invalid-context error carrying its cause.
    pub fn invalid_context_with_source(msg: String, source: String) -> (e: Self)
        ensures
            e matches RiskEngineError::InvalidContextWithSource { msg: m, source: s } && m@ == msg@ && s@ == source@,
    {
        RiskEngineError::InvalidContextWithSource { msg, source }
    }

    /// A config error carrying its cause.
    pub fn config_error_with_source(msg: String, source: String) -> (e: Self)
        ensures
            e matches RiskEngineError::ConfigErrorWithSource { msg: m, source: s } && m@ == msg@ && s@ == source@,
    {
        RiskEngineError::ConfigErrorWithSource { msg, source }
    }

    /// The display text of the error.
    pub fn message(&self) -> (r: String)
        ensures
            r@ == spec_error_message(*self),
    {
        match self {
            RiskEngineError::StoreError(m) => text::concat2("signal store error: ", m.as_str()),
            RiskEngineError::StoreErrorWithSource { msg, .. } => text::concat2("signal store error: ", msg.as_str()),
            RiskEngineError::Timeout { ms } => text::with_number("signal collection timed out after ", *ms, "ms"),
            RiskEngineError::InvalidContext(m) => text::concat2("invalid context: ", m.as_str()),
            RiskEngineError::InvalidContextWithSource { msg, .. } => text::concat2("invalid context: ", msg.as_str()),
            RiskEngineError::ConfigError(m) => text::concat2("invalid policy config: ", m.as_str()),
            RiskEngineError::ConfigErrorWithSource { msg, .. } => text::concat2("invalid policy config: ", msg.as_str()),
            RiskEngineError::RateLimited(m) => text::concat2("rate limit exceeded: ", m.as_str()),
        }
    }

    /// The cause of the error, if it carries one.
    pub fn source(&self) -> (r: Option<&String>)
        ensures
            match r {
                Some(s) => spec_error_source(*self) == Some(s@),
                None => spec_error_source(*self) is None,
            },
    {
        match self {
            RiskEngineError::StoreErrorWithSource { source, .. } => Some(source),
            RiskEngineError::InvalidContextWithSource { source, .. } => Some(source),
            RiskEngineError::ConfigErrorWithSource { source, .. } => Some(source),
            _ => None,
        }
    }
}

} // verus!
