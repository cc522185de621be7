//! Enrichment signal helpers: pure classifiers and parsers for request signals.
pub mod breach;
pub mod client_sdk;
pub mod disposable_email;
pub mod fingerprint;
pub mod geoip;
pub mod ip_reputation;
pub mod metrics;
pub mod sanctions;
