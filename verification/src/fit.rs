//! The result of analysing one catalog entry on one machine, and the
//! measured throughput that may stand beside its formula estimate.
//!
//! Throughputs are held in thousandths of a token per second, so that
//! `1000` is one token per second; calibration factors are held in millionths,
//! so that `1_000_000` is a factor of one.
use vstd::prelude::*;

use crate::catalog::LlmModel;

verus! {

/// Where a measured throughput comes from.
#[derive(Clone, Copy, Debug, PartialEq, Eq, Structural)]
pub enum MeasuredSource {
    /// The user's own benchmark runs on this machine.
    LocalBench,
    /// Community submissions recorded on identical hardware.
    CommunityLlmfit,
    /// Medians published for a matching hardware preset.
    Localmaxxing,
}

/// A measured generation throughput.
#[derive(Clone, Copy, Debug)]
pub struct MeasuredTps {
    /// Tokens per second, in thousandths.
    pub tok_s: u64,
    pub source: MeasuredSource,
}

/// How an estimate was arrived at.
#[derive(Clone, Copy, Debug)]
pub struct EstimateBasis {
    /// The factor, in millionths, that local calibration scaled the formula
    /// estimate by, when it did.
    pub local_calibration: Option<u64>,
    /// The formula estimate that local calibration scaled, in thousandths of
    /// a token per second. It is trusted only while scaling it by
    /// `local_calibration` gives the estimate the row holds; otherwise the
    /// formula estimate is the row's estimate divided by the factor.
    pub formula_tps: u128,
}

/// How far an estimate can be trusted.
#[derive(Clone, Copy, Debug, PartialEq, Eq, Structural)]
pub enum EstimateConfidence {
    /// The throughput formula alone.
    Formula,
    /// The formula, scaled by measurements made on this hardware.
    Calibrated,
    /// A measured throughput is known for the row.
    Measured,
}

/// The inference runtimes an analysis can be forced onto.
#[derive(Clone, Copy, Debug, PartialEq, Eq, Structural)]
pub enum InferenceRuntime {
    LlamaCpp,
    Mlx,
    Vllm,
}

/// Custom calculation parameters, such as those of a hardware profile.
#[derive(Clone, Copy, Debug)]
pub struct CalcConfig {
    /// The largest context, in tokens, that the analysis may assume.
    pub context_cap: Option<u32>,
    /// The memory bandwidth of the profile, in thousandths of a GB/s, where
    /// the profile states it.
    pub memory_bandwidth_gbps: Option<u64>,
    /// The share of the bandwidth that generation achieves, in millionths,
    /// where the profile states it.
    pub efficiency: Option<u64>,
}

/// One analysed catalog entry.
#[derive(Debug)]
pub struct ModelFit {
    pub model: LlmModel,
    /// Whether some provider has the model installed.
    pub installed: bool,
    /// The quantisation the analysis settled on.
    pub best_quant: String,
    /// The estimated generation throughput, in thousandths of a token per second.
    pub estimated_tps: u64,
    /// A measured throughput, when one is known.
    pub measured_tps: Option<MeasuredTps>,
    pub estimate_basis: EstimateBasis,
    pub estimate_confidence: EstimateConfidence,
}

/// The confidence that the state of `f` warrants: a measured row is measured,
/// a calibrated formula row is calibrated, any other row rests on the formula.
pub open spec fn warranted_confidence(f: ModelFit) -> EstimateConfidence {
    if f.measured_tps is Some {
        EstimateConfidence::Measured
    } else if f.estimate_basis.local_calibration is Some {
        EstimateConfidence::Calibrated
    } else {
        EstimateConfidence::Formula
    }
}

/// `f` with the confidence its state warrants.
pub open spec fn refreshed(f: ModelFit) -> ModelFit {
    ModelFit { estimate_confidence: warranted_confidence(f), ..f }
}

impl ModelFit {
    /// Brings the confidence in line with the row's measurement and
    /// calibration.
    pub fn refresh_estimate_confidence(&mut self)
        ensures
            *final(self) == refreshed(*old(self)),
    {
        self.estimate_confidence = if self.measured_tps.is_some() {
            EstimateConfidence::Measured
        } else if self.estimate_basis.local_calibration.is_some() {
            EstimateConfidence::Calibrated
        } else {
            EstimateConfidence::Formula
        };
    }
}

} // verus!
