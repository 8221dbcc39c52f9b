//! An online trust-scoring and intrusion-exposure engine for a multi-hop
//! wireless sensor network.
//!
//! The engine consumes a stream of trace lines describing packet
//! transmission, forwarding, routing-parent selection, and loss counters.
//! Per relaying node it maintains three trust estimators (a Beta posterior
//! mean, an add-one-smoothed Bayesian ratio, and an EWMA) over deltas
//! reconstructed from cumulative counters, and latches misbehaving nodes
//! into a permanent blacklist. Network-wide it tracks which delivered
//! packets transited a designated attacker node (an interception rate
//! computed order-independently from two deduplicated event streams) and
//! how often nodes switch their routing parent.
//!
//! All fractional quantities are exact fixed-point values in parts per
//! million; every update rule is stated and proved as integer arithmetic.

pub mod fixed;
pub mod engine;
pub mod event;
pub mod exposure;
pub mod parent;
pub mod parse;
pub mod trust;

pub use fixed::PPM;
