//! Policy layer: hard gates evaluated before scoring.
pub mod hard_gates;
