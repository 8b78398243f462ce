//! Statistical evaluation of a randomness-test battery over fixed-size bit
//! blocks: a test registry, a block-processing pipeline with cooperative
//! cancellation, per-sub-test accumulators, and a chi-square / proportion
//! aggregator that renders a textual report.

pub mod eval;
pub mod params;
pub mod pipeline;
pub mod report;
pub mod stats;
pub mod text;
