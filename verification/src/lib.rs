//! Deterministic risk scoring and policy engine.
pub mod text;
pub mod timeutil;
pub mod signals;
pub mod config;
pub mod policy_config;
pub mod scoring;
pub mod context;
pub mod decision;
pub mod org_graph;
pub mod policy;
pub mod engine;
pub mod store;
pub mod ids;
pub mod error;
pub mod keys;
pub mod enrichment;
pub mod rate_limit;
pub mod http;
