//! Multi-tenant adversarial graph intelligence: clusters, org risk and bias.
pub mod cluster;
pub mod graph;
pub mod recompute;
pub mod scoring;
pub mod tenant;
pub mod union_find;
pub mod worker;
