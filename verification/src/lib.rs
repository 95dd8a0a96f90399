//! Local alignment summaries from k-bounded matching statistics.
//!
//! The pipeline turns the per-position matching statistics of a query
//! sequence into run-length alignment records in four stages: estimating
//! a random match threshold, derandomizing the statistics into signed run
//! values with a backward pass, decoding the run values into per-position
//! alignment symbols with a forward pass, and compressing the symbols
//! into disjoint alignment runs.

pub mod compress;
pub mod derandomize;
pub mod threshold;
pub mod translate;
