//! Ranking support for a catalog of local LLM models: which catalog entries are
//! installed with some inference provider, which ones may be ranked on a given
//! machine, how each ranked entry is to be analysed, and how measured
//! throughput calibrates the formula estimates.

pub mod analysis;
pub mod calibration;
pub mod catalog;
pub mod fit;
pub mod installed;
