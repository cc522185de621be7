use risk_engine::error::RiskEngineError;

struct Dummy;

impl std::fmt::Display for Dummy {
    fn fmt(&self, f: &mut std::fmt::Formatter<'_>) -> std::fmt::Result {
        f.write_str("inner cause")
    }
}

#[test]
fn store_with_source_preserves_chain() {
    let inner = std::io::Error::new(std::io::ErrorKind::ConnectionReset, "kaboom");
    let e = RiskEngineError::store_with_source("redis lookup failed".to_string(), inner.to_string());
    assert_eq!(e.message(), "signal store error: redis lookup failed");
    let source = e.source().expect("source set");
    assert!(source.contains("kaboom"));
}

#[test]
fn legacy_store_error_has_no_source() {
    let e = RiskEngineError::StoreError("basic failure".into());
    assert!(e.source().is_none());
}

#[test]
fn invalid_context_with_source_chains() {
    let e = RiskEngineError::invalid_context_with_source("bad nonce".to_string(), Dummy.to_string());
    assert_eq!(e.message(), "invalid context: bad nonce");
    assert_eq!(e.source().unwrap(), "inner cause");
}

#[test]
fn timeout_has_no_source() {
    let e = RiskEngineError::Timeout { ms: 20 };
    assert!(e.source().is_none());
    assert_eq!(e.message(), "signal collection timed out after 20ms");
}

#[test]
fn every_variant_renders_its_message() {
    assert_eq!(RiskEngineError::StoreError("x".into()).message(), "signal store error: x");
    assert_eq!(RiskEngineError::InvalidContext("y".into()).message(), "invalid context: y");
    assert_eq!(RiskEngineError::ConfigError("z".into()).message(), "invalid policy config: z");
    assert_eq!(RiskEngineError::RateLimited("k".into()).message(), "rate limit exceeded: k");
    let c = RiskEngineError::config_error_with_source("bad".to_string(), "why".to_string());
    assert_eq!(c.message(), "invalid policy config: bad");
    assert_eq!(c.source().map(|s| s.as_str()), Some("why"));
}
