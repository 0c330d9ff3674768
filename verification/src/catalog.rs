//! The catalog side of the model: machines, catalog entries and the database
//! that holds them, with the facts about each that ranking reads.
use vstd::prelude::*;

verus! {

/// The accelerator backend that a machine runs inference on.
#[derive(Clone, Copy, Debug, PartialEq, Eq, Structural)]
pub enum GpuBackend {
    Cuda,
    Metal,
    Rocm,
    Vulkan,
    Sycl,
    CpuArm,
    CpuX86,
}

/// What ranking needs to know of the machine it ranks for.
#[derive(Clone, Copy, Debug)]
pub struct SystemSpecs {
    pub backend: GpuBackend,
}

/// A catalog entry.
///
/// Parameter counts are held in millions of parameters, so that one billion
/// parameters is `1000`.
#[derive(Clone, Debug)]
pub struct LlmModel {
    pub name: String,
    /// The parameter count that sizing uses, in millions.
    pub params_m: u64,
    /// Mixture-of-experts models do not scale like dense ones.
    pub is_moe: bool,
    /// Set on draft heads, size/name divergences and implausible footprints:
    /// such entries stay queryable but are never ranked.
    pub sanitization_demoted: bool,
    /// The only backend that can run this entry, if there is such a limit.
    pub required_backend: Option<GpuBackend>,
}

impl LlmModel {
    /// Whether the catalog keeps this entry out of every ranked sweep.
    pub fn is_sanitization_demoted(&self) -> (r: bool)
        ensures
            r == self.sanitization_demoted,
    {
        self.sanitization_demoted
    }
}

/// Whether `model` can run on the backend of `specs`.
pub open spec fn spec_backend_compatible(model: LlmModel, specs: SystemSpecs) -> bool {
    match model.required_backend {
        Some(b) => b == specs.backend,
        None => true,
    }
}

/// Whether `model` can actually run on the backend of `specs`.
pub fn backend_compatible(model: &LlmModel, specs: &SystemSpecs) -> (r: bool)
    ensures
        r == spec_backend_compatible(*model, *specs),
{
    match model.required_backend {
        Some(b) => b == specs.backend,
        None => true,
    }
}

/// The catalog of models.
pub struct ModelDatabase {
    pub models: Vec<LlmModel>,
}

impl ModelDatabase {
    /// A database holding exactly `models`, in that order.
    pub fn from_models(models: Vec<LlmModel>) -> (db: ModelDatabase)
        ensures
            db.models@ == models@,
    {
        ModelDatabase { models }
    }

    /// Every catalog entry, demoted ones included.
    pub fn get_all_models(&self) -> (r: &Vec<LlmModel>)
        ensures
            r@ == self.models@,
    {
        &self.models
    }
}

} // verus!
