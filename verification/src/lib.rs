//! Selection of reproducible samples of software-repository projects from a
//! catalog snapshot, and derivation of a stable (head, base) pair of commit
//! anchors for each selected project.
//!
//! The crate covers four concerns:
//! - filter predicates over project attributes (`predicates`),
//! - deterministic, seed-controlled sampling of a filtered population
//!   (`sampler`),
//! - resolution of a base commit a fixed percentage of history behind the
//!   default branch's tip (`resolver`),
//! - production of named selections and their reconciliation against freshly
//!   resolved specs (`runner`, `reconciler`).
//!
//! File and directory input/output stays with the caller: every function here
//! works on plain values.

pub mod model;
pub mod predicates;
pub mod reconciler;
pub mod resolver;
pub mod runner;
pub mod sampler;
pub mod text;
