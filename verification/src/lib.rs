//! Fraud scoring by nearest neighbours: feature vectors, quantised distances, a
//! clustered search for the five nearest reference transactions, the decision
//! drawn from their labels, and the evaluation of decisions against labelled
//! records.
//!
//! Single-precision numbers enter the library as bit patterns
//! ([`single::Single`]) and leave it as formulas ([`formula::Formula`]) whose
//! arithmetic the surrounding program carries out.
use vstd::prelude::*;

pub mod cli;
pub mod clock;
pub mod decision;
pub mod distance;
pub mod evaluation;
pub mod formula;
pub mod heuristic;
pub mod json;
pub mod quantize;
pub mod ranking;
pub mod records;
pub mod request;
pub mod search;
pub mod single;
pub mod text;
pub mod top_k;
pub mod vectorize;

verus! {

/// Features of one transaction.
pub const DIMENSIONS: usize = 14;

/// Features after padding to a power of two.
pub const PACKED_DIMENSIONS: usize = 16;

/// Neighbours that take part in a decision.
pub const TOP_K: usize = 5;

/// Version of the artifact files.
pub const ARTIFACT_VERSION: u32 = 2;

} // verus!
