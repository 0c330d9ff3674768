//! The ranked fit sweep: which catalog entries may be ranked on a machine,
//! how each one is to be analysed, and how analysed rows are completed with
//! installed markers, measured throughput and local calibration.
use vstd::prelude::*;

use crate::calibration::{anchor_ratios, apply_local_calibration, calibrate_all, calibration_factor};
use crate::catalog::{
    backend_compatible, spec_backend_compatible, LlmModel, ModelDatabase, SystemSpecs,
};
use crate::fit::{refreshed, CalcConfig, InferenceRuntime, MeasuredTps, ModelFit};
use crate::installed::{any_installed, InstalledIndex, NameSet, Provider};

verus! {

/// Whether a catalog entry may be ranked on `specs`: the backend can run it
/// and the catalog has not demoted it.
pub open spec fn is_rankable(m: LlmModel, specs: SystemSpecs) -> bool {
    spec_backend_compatible(m, specs) && !m.sanitization_demoted
}

/// The rankable entries of `models`, in catalog order.
pub open spec fn rankable_seq(models: Seq<LlmModel>, specs: SystemSpecs) -> Seq<LlmModel> {
    models.filter(|m: LlmModel| is_rankable(m, specs))
}

/// How many entries of `models` the backend of `specs` cannot run.
pub open spec fn incompatible_count(models: Seq<LlmModel>, specs: SystemSpecs) -> nat {
    models.filter(|m: LlmModel| !spec_backend_compatible(m, specs)).len()
}

/// How many entries of `models` the backend of `specs` could run but the
/// catalog has demoted.
pub open spec fn demoted_count(models: Seq<LlmModel>, specs: SystemSpecs) -> nat {
    models.filter(|m: LlmModel| spec_backend_compatible(m, specs) && m.sanitization_demoted).len()
}

/// The catalog entries eligible for a ranked fit sweep on this hardware: those
/// the backend can run and that are not sanitization-demoted, in catalog
/// order. Demoted entries stay in the catalog; they are only kept out of
/// anything that ranks models.
pub fn rankable_models<'a>(models: &'a [LlmModel], specs: &SystemSpecs) -> (r: Vec<
    &'a LlmModel,
>)
    ensures
        r@.len() == rankable_seq(models@, *specs).len(),
        forall|i: int| 0 <= i < r@.len() ==> *#[trigger] r@[i] == rankable_seq(models@, *specs)[i],
{
    let mut out: Vec<&'a LlmModel> = Vec::new();
    let mut i: usize = 0;
    while i < models.len()
        invariant
            i <= models.len(),
            out@.len() == rankable_seq(models@.take(i as int), *specs).len(),
            forall|j: int|
                0 <= j < out@.len() ==> *#[trigger] out@[j] == rankable_seq(
                    models@.take(i as int),
                    *specs,
                )[j],
        decreases models.len() - i,
    {
        let m = &models[i];
        proof {
            reveal(Seq::filter);
            let t = models@.take(i + 1);
            assert(t.drop_last() =~= models@.take(i as int));
            assert(t.last() == models@[i as int]);
        }
        if backend_compatible(m, specs) && !m.is_sanitization_demoted() {
            out.push(m);
        }
        i += 1;
    }
    assert(models@.take(models@.len() as int) =~= models@);
    out
}

/// How many catalog entries the sweep drops on this hardware because the
/// backend cannot run them.
pub fn backend_hidden_count(models: &[LlmModel], specs: &SystemSpecs) -> (n: usize)
    ensures
        n == incompatible_count(models@, *specs),
{
    let mut n: usize = 0;
    let mut i: usize = 0;
    while i < models.len()
        invariant
            i <= models.len(),
            n == incompatible_count(models@.take(i as int), *specs),
            n <= i,
        decreases models.len() - i,
    {
        proof {
            reveal(Seq::filter);
            let t = models@.take(i + 1);
            assert(t.drop_last() =~= models@.take(i as int));
            assert(t.last() == models@[i as int]);
        }
        if !backend_compatible(&models[i], specs) {
            n += 1;
        }
        i += 1;
    }
    assert(models@.take(models@.len() as int) =~= models@);
    n
}

/// Every catalog entry is ranked, hidden as backend-incompatible, or dropped
/// as demoted, and exactly one of these.
pub proof fn lemma_sweep_partitions_catalog(models: Seq<LlmModel>, specs: SystemSpecs)
    ensures
        rankable_seq(models, specs).len() + incompatible_count(models, specs) + demoted_count(
            models,
            specs,
        ) == models.len(),
    decreases models.len(),
{
    reveal(Seq::filter);
    if models.len() > 0 {
        lemma_sweep_partitions_catalog(models.drop_last(), specs);
    }
}

/// `pos` lists, in increasing order, the positions in `models` at which the
/// elements of `sub` stand.
pub open spec fn embeds_at(pos: Seq<int>, sub: Seq<LlmModel>, models: Seq<LlmModel>) -> bool {
    &&& pos.len() == sub.len()
    &&& forall|i: int|
        0 <= i < pos.len() ==> 0 <= #[trigger] pos[i] < models.len() && models[pos[i]] == sub[i]
    &&& forall|i: int, j: int| 0 <= i < j < pos.len() ==> pos[i] < pos[j]
}

/// Every ranked entry is a backend-compatible, non-demoted entry of the
/// catalog, and the ranked entries keep their catalog order.
pub proof fn lemma_ranked_entries_come_from_catalog(models: Seq<LlmModel>, specs: SystemSpecs)
    ensures
        forall|i: int|
            0 <= i < rankable_seq(models, specs).len() ==> is_rankable(
                #[trigger] rankable_seq(models, specs)[i],
                specs,
            ),
        exists|pos: Seq<int>| #[trigger] embeds_at(pos, rankable_seq(models, specs), models),
    decreases models.len(),
{
    reveal(Seq::filter);
    if models.len() > 0 {
        let init = models.drop_last();
        lemma_ranked_entries_come_from_catalog(init, specs);
        let pos0 = choose|pos: Seq<int>| #[trigger] embeds_at(pos, rankable_seq(init, specs), init);
        let sub = rankable_seq(models, specs);
        if is_rankable(models.last(), specs) {
            let pos = pos0.push(models.len() - 1);
            assert forall|i: int| 0 <= i < pos.len() implies 0 <= #[trigger] pos[i] < models.len()
                && models[pos[i]] == sub[i] by {
                if i < pos0.len() {
                    assert(pos[i] == pos0[i]);
                    assert(models[pos0[i]] == init[pos0[i]]);
                }
            }
            assert forall|i: int, j: int| 0 <= i < j < pos.len() implies pos[i] < pos[j] by {
                if j < pos0.len() {
                    assert(pos[i] == pos0[i] && pos[j] == pos0[j]);
                } else {
                    assert(pos[i] == pos0[i]);
                }
            }
            assert(embeds_at(pos, sub, models));
        } else {
            assert forall|i: int| 0 <= i < pos0.len() implies 0 <= #[trigger] pos0[i]
                < models.len() && models[pos0[i]] == sub[i] by {
                assert(models[pos0[i]] == init[pos0[i]]);
            }
            assert(embeds_at(pos0, sub, models));
        }
    } else {
        assert(embeds_at(Seq::<int>::empty(), rankable_seq(models, specs), models));
    }
}

/// A catalog holding a demoted or backend-incompatible entry yields a sweep
/// strictly shorter than the catalog.
pub proof fn lemma_dropped_entry_shortens_sweep(models: Seq<LlmModel>, specs: SystemSpecs, k: int)
    requires
        0 <= k < models.len(),
        !is_rankable(models[k], specs),
    ensures
        rankable_seq(models, specs).len() < models.len(),
    decreases models.len(),
{
    reveal(Seq::filter);
    lemma_sweep_partitions_catalog(models, specs);
    if k == models.len() - 1 {
        let init = models.drop_last();
        lemma_sweep_partitions_catalog(init, specs);
    } else {
        let init = models.drop_last();
        assert(init[k] == models[k]);
        lemma_dropped_entry_shortens_sweep(init, specs, k);
        lemma_sweep_partitions_catalog(init, specs);
    }
}

} // verus!

verus! {

/// How the analyser is to analyse one catalog entry.
#[derive(Clone, Copy, Debug)]
pub enum AnalysisRequest {
    /// Automatic runtime selection, optionally forced onto one runtime, under
    /// an optional context limit.
    ForcedRuntime { context_limit: Option<u32>, runtime: Option<InferenceRuntime> },
    /// Default calculation parameters under an optional context limit.
    ContextLimit { context_limit: Option<u32> },
    /// Custom calculation parameters, which carry their own context cap.
    Config { config: CalcConfig },
}

/// `config` with the caller's context limit in place of its cap, where the
/// caller gives one; its other parameters are kept.
pub open spec fn merged_config(context_limit: Option<u32>, config: CalcConfig) -> CalcConfig {
    CalcConfig {
        context_cap: if context_limit is Some {
            context_limit
        } else {
            config.context_cap
        },
        ..config
    }
}

/// How to analyse one model, honouring a hardware profile's `CalcConfig` when
/// the caller has one.
///
/// With a config, the analysis uses it, with its context cap replaced by the
/// caller's context limit when there is one; without, the analysis uses the
/// default parameters under the context limit.
pub fn analyze_with_optional_config(context_limit: Option<u32>, config: Option<&CalcConfig>) -> (r:
    AnalysisRequest)
    ensures
        match config {
            Some(c) => r == (AnalysisRequest::Config { config: merged_config(context_limit, *c) }),
            None => r == (AnalysisRequest::ContextLimit { context_limit }),
        },
{
    match config {
        Some(config) => {
            let mut config = *config;
            config.context_cap =
            match context_limit {
                Some(limit) => Some(limit),
                None => config.context_cap,
            };
            AnalysisRequest::Config { config }
        },
        None => AnalysisRequest::ContextLimit { context_limit },
    }
}

/// How each model in the sweep is analysed.
#[derive(Clone, Copy, Debug)]
pub enum FitMode {
    /// Automatic runtime selection, optionally forced to one runtime.
    Runtime(Option<InferenceRuntime>),
    /// Custom calculation parameters (e.g. from a hardware profile).
    Config(CalcConfig),
}

/// The request that a sweep in `mode` makes for every model.
pub open spec fn mode_request(mode: FitMode, context_limit: Option<u32>) -> AnalysisRequest {
    match mode {
        FitMode::Runtime(runtime) => AnalysisRequest::ForcedRuntime { context_limit, runtime },
        FitMode::Config(config) => AnalysisRequest::Config {
            config: merged_config(context_limit, config),
        },
    }
}

/// One row of a sweep before analysis: the catalog entry, how it is to be
/// analysed, and its installed marker.
#[derive(Debug)]
pub struct FitPlan<'a> {
    pub model: &'a LlmModel,
    pub request: AnalysisRequest,
    pub installed: bool,
}

/// Whether `r` holds the rows of a sweep over the rankable entries of
/// `models` on `specs`, in catalog order, each to be analysed as `request`
/// says and marked installed as the matchers `matches` answer on `installed`.
pub open spec fn plans_sweep<'a, F: Fn(Provider, &LlmModel, &NameSet) -> bool>(
    r: Seq<FitPlan<'a>>,
    models: Seq<LlmModel>,
    specs: SystemSpecs,
    installed: InstalledIndex,
    matches: F,
    request: AnalysisRequest,
) -> bool {
    &&& r.len() == rankable_seq(models, specs).len()
    &&& forall|i: int|
        0 <= i < r.len() ==> {
            &&& *(#[trigger] r[i]).model == rankable_seq(models, specs)[i]
            &&& r[i].request == request
            &&& exists|a: spec_fn(Provider) -> bool|
                #[trigger] installed.answered_by(matches, rankable_seq(models, specs)[i], a)
                    && r[i].installed == any_installed(a)
        }
}

/// Two sweeps over one catalog with one request differ in installed markers
/// at most, whatever index and matchers marked them.
pub proof fn lemma_sweep_plans_ignore_index<
    'a,
    F: Fn(Provider, &LlmModel, &NameSet) -> bool,
    G: Fn(Provider, &LlmModel, &NameSet) -> bool,
>(
    r1: Seq<FitPlan<'a>>,
    r2: Seq<FitPlan<'a>>,
    models: Seq<LlmModel>,
    specs: SystemSpecs,
    installed1: InstalledIndex,
    matches1: F,
    installed2: InstalledIndex,
    matches2: G,
    request: AnalysisRequest,
)
    requires
        plans_sweep(r1, models, specs, installed1, matches1, request),
        plans_sweep(r2, models, specs, installed2, matches2, request),
    ensures
        r1.len() == r2.len(),
        forall|i: int|
            0 <= i < r1.len() ==> *(#[trigger] r1[i]).model == *r2[i].model && r1[i].request
                == r2[i].request,
{
    assert forall|i: int| 0 <= i < r1.len() implies *(#[trigger] r1[i]).model == *r2[i].model
        && r1[i].request == r2[i].request by {
        assert(*r2[i].model == rankable_seq(models, specs)[i]);
    }
}

/// The rows of a sweep over the rankable entries of `db`, in catalog order,
/// each to be analysed as `mode` says and marked installed as the matchers
/// answer. Two sweeps that differ only in the index or the matchers differ in
/// installed markers at most (`lemma_sweep_plans_ignore_index`).
pub fn build_fits<'a, F: Fn(Provider, &LlmModel, &NameSet) -> bool>(
    db: &'a ModelDatabase,
    specs: &SystemSpecs,
    installed: &InstalledIndex,
    matches: &F,
    context_limit: Option<u32>,
    mode: FitMode,
) -> (r: Vec<FitPlan<'a>>)
    requires
        forall|m: LlmModel| #[trigger] installed.can_ask(*matches, m),
    ensures
        plans_sweep(r@, db.models@, *specs, *installed, *matches, mode_request(mode, context_limit)),
{
    let request = match &mode {
        FitMode::Runtime(runtime) => AnalysisRequest::ForcedRuntime {
            context_limit,
            runtime: *runtime,
        },
        FitMode::Config(config) => analyze_with_optional_config(context_limit, Some(config)),
    };
    let models = rankable_models(db.get_all_models().as_slice(), specs);
    let mut plans: Vec<FitPlan<'a>> = Vec::new();
    let mut i: usize = 0;
    while i < models.len()
        invariant
            i <= models.len(),
            plans@.len() == i,
            request == mode_request(mode, context_limit),
            forall|m: LlmModel| #[trigger] installed.can_ask(*matches, m),
            forall|j: int|
                0 <= j < i ==> {
                    &&& (#[trigger] plans@[j]).model == models@[j]
                    &&& plans@[j].request == request
                    &&& exists|a: spec_fn(Provider) -> bool|
                        #[trigger] installed.answered_by(*matches, *models@[j], a)
                            && plans@[j].installed == any_installed(a)
                },
        decreases models.len() - i,
    {
        let m = models[i];
        assert(installed.can_ask(*matches, *m));
        let is_in = installed.is_installed(m, matches);
        plans.push(FitPlan { model: m, request, installed: is_in });
        proof {
            assert(plans@[i as int].model == models@[i as int]);
        }
        i += 1;
    }
    plans
}

/// The rows of a sweep over every rankable catalog entry, marked installed as
/// the providers' matchers `matches` answer on `installed`; each is to be
/// analysed with automatic runtime selection (forced onto `forced_runtime`
/// when given) under `context_limit`.
pub fn build_model_fits<'a, F: Fn(Provider, &LlmModel, &NameSet) -> bool>(
    db: &'a ModelDatabase,
    specs: &SystemSpecs,
    installed: &InstalledIndex,
    matches: &F,
    context_limit: Option<u32>,
    forced_runtime: Option<InferenceRuntime>,
) -> (r: Vec<FitPlan<'a>>)
    requires
        forall|m: LlmModel| #[trigger] installed.can_ask(*matches, m),
    ensures
        plans_sweep(
            r@,
            db.models@,
            *specs,
            *installed,
            *matches,
            AnalysisRequest::ForcedRuntime { context_limit, runtime: forced_runtime },
        ),
{
    build_fits(db, specs, installed, matches, context_limit, FitMode::Runtime(forced_runtime))
}

/// `build_model_fits` with custom calculation parameters, so that a hardware
/// profile reaches every row of the sweep; runtime selection stays automatic.
pub fn build_model_fits_with_config<'a, F: Fn(Provider, &LlmModel, &NameSet) -> bool>(
    db: &'a ModelDatabase,
    specs: &SystemSpecs,
    installed: &InstalledIndex,
    matches: &F,
    context_limit: Option<u32>,
    config: CalcConfig,
) -> (r: Vec<FitPlan<'a>>)
    requires
        forall|m: LlmModel| #[trigger] installed.can_ask(*matches, m),
    ensures
        plans_sweep(
            r@,
            db.models@,
            *specs,
            *installed,
            *matches,
            AnalysisRequest::Config { config: merged_config(context_limit, config) },
        ),
{
    build_fits(db, specs, installed, matches, context_limit, FitMode::Config(config))
}

/// The measured throughputs known for one row, by source, most trustworthy
/// first: the user's own runs on this machine, community submissions on
/// identical hardware, then medians on a matching hardware preset.
#[derive(Clone, Copy, Debug)]
pub struct MeasuredCandidates {
    pub local: Option<MeasuredTps>,
    pub community: Option<MeasuredTps>,
    pub preset: Option<MeasuredTps>,
}

/// The most trustworthy measurement among `c`.
pub open spec fn preferred_measurement(c: MeasuredCandidates) -> Option<MeasuredTps> {
    if c.local is Some {
        c.local
    } else if c.community is Some {
        c.community
    } else {
        c.preset
    }
}

/// An analysed row with its installed marker, its preferred measurement and
/// the confidence these warrant.
pub open spec fn settled(f: ModelFit, installed: bool, c: MeasuredCandidates) -> ModelFit {
    refreshed(ModelFit { installed, measured_tps: preferred_measurement(c), ..f })
}

/// The rows of a completed sweep: row `i` of `analyzed` settled with the
/// installed marker `installed[i]` and the measurements `measured[i]`, then
/// calibrated locally.
pub open spec fn completed_rows(
    analyzed: Seq<ModelFit>,
    installed: Seq<bool>,
    measured: Seq<MeasuredCandidates>,
) -> Seq<ModelFit> {
    calibrate_all(
        Seq::new(analyzed.len(), |i: int| settled(analyzed[i], installed[i], measured[i])),
    )
}

/// The most trustworthy measurement among `c`.
fn preferred(c: &MeasuredCandidates) -> (r: Option<MeasuredTps>)
    ensures
        r == preferred_measurement(*c),
{
    match c.local {
        Some(m) => Some(m),
        None => match c.community {
            Some(m) => Some(m),
            None => c.preset,
        },
    }
}

/// Completes a sweep: row `i` of `analyzed` is the analysis of `plans[i]`,
/// and `measured[i]` the measurements known for it. Each row takes its
/// installed marker from the plan and its most trustworthy measurement, then
/// the rows are calibrated locally. The rows are returned unsorted.
pub fn complete_fits(
    plans: &[FitPlan],
    analyzed: Vec<ModelFit>,
    measured: &[MeasuredCandidates],
) -> (r: Vec<ModelFit>)
    requires
        analyzed@.len() == plans@.len(),
        measured@.len() == plans@.len(),
        forall|i: int| 0 <= i < plans@.len() ==> #[trigger] analyzed@[i].model == *plans@[i].model,
    ensures
        r@ == completed_rows(
            analyzed@,
            plans@.map_values(|p: FitPlan| p.installed),
            measured@,
        ),
{
    let mut fits = analyzed;
    let ghost target = Seq::new(
        plans@.len(),
        |i: int| settled(analyzed@[i], plans@[i].installed, measured@[i]),
    );
    let mut i: usize = 0;
    while i < fits.len()
        invariant
            i <= fits.len(),
            fits@.len() == plans@.len(),
            measured@.len() == plans@.len(),
            target.len() == plans@.len(),
            forall|j: int|
                0 <= j < plans@.len() ==> #[trigger] target[j] == settled(
                    analyzed@[j],
                    plans@[j].installed,
                    measured@[j],
                ),
            forall|j: int| 0 <= j < i ==> #[trigger] fits@[j] == target[j],
            forall|j: int| i <= j < fits@.len() ==> #[trigger] fits@[j] == analyzed@[j],
        decreases fits.len() - i,
    {
        let m = preferred(&measured[i]);
        fits[i].installed = plans[i].installed;
        fits[i].measured_tps = m;
        fits[i].refresh_estimate_confidence();
        i += 1;
    }
    assert(fits@ =~= target);
    apply_local_calibration(fits.as_mut_slice());
    assert(target =~= Seq::new(
        analyzed@.len(),
        |i: int| settled(analyzed@[i], plans@.map_values(|p: FitPlan| p.installed)[i], measured@[i]),
    ));
    fits
}

/// `a` and `b` differ in the installed marker at most.
pub open spec fn same_but_installed(a: ModelFit, b: ModelFit) -> bool {
    ModelFit { installed: b.installed, ..a } == b
}

/// Anchors and their ratios do not depend on installed markers.
proof fn lemma_anchor_ratios_ignore_installed(s1: Seq<ModelFit>, s2: Seq<ModelFit>)
    requires
        s1.len() == s2.len(),
        forall|i: int| 0 <= i < s1.len() ==> same_but_installed(#[trigger] s1[i], s2[i]),
    ensures
        anchor_ratios(s1) == anchor_ratios(s2),
    decreases s1.len(),
{
    if s1.len() > 0 {
        let (a, b) = (s1.drop_last(), s2.drop_last());
        assert forall|i: int| 0 <= i < a.len() implies same_but_installed(#[trigger] a[i], b[i]) by {
            assert(a[i] == s1[i] && b[i] == s2[i]);
        }
        lemma_anchor_ratios_ignore_installed(a, b);
        assert(same_but_installed(s1[s1.len() - 1], s2[s2.len() - 1]));
    }
}

/// The installed marker is inert: completing the same analysed rows with
/// different installed markers gives rows that differ in the marker alone,
/// each row carrying its own marker.
pub proof fn lemma_installed_marker_is_inert(
    analyzed: Seq<ModelFit>,
    installed1: Seq<bool>,
    installed2: Seq<bool>,
    measured: Seq<MeasuredCandidates>,
)
    requires
        installed1.len() == analyzed.len(),
        installed2.len() == analyzed.len(),
        measured.len() == analyzed.len(),
    ensures
        completed_rows(analyzed, installed1, measured).len() == analyzed.len(),
        completed_rows(analyzed, installed2, measured).len() == analyzed.len(),
        forall|i: int|
            0 <= i < analyzed.len() ==> {
                &&& same_but_installed(
                    #[trigger] completed_rows(analyzed, installed1, measured)[i],
                    completed_rows(analyzed, installed2, measured)[i],
                )
                &&& completed_rows(analyzed, installed1, measured)[i].installed == installed1[i]
                &&& completed_rows(analyzed, installed2, measured)[i].installed == installed2[i]
            },
{
    let s1 = Seq::new(analyzed.len(), |i: int| settled(analyzed[i], installed1[i], measured[i]));
    let s2 = Seq::new(analyzed.len(), |i: int| settled(analyzed[i], installed2[i], measured[i]));
    assert forall|i: int| 0 <= i < s1.len() implies same_but_installed(#[trigger] s1[i], s2[i]) by {}
    lemma_anchor_ratios_ignore_installed(s1, s2);
    assert(calibration_factor(s1) == calibration_factor(s2));
}

} // verus!

verus! {

/// A completed row keeps its entry and takes the installed marker given for
/// it, and its measurement is the local one when there is one, else the
/// community one when there is one, else the preset one.
pub proof fn lemma_completion_prefers_local_then_community_then_preset(
    analyzed: Seq<ModelFit>,
    installed: Seq<bool>,
    measured: Seq<MeasuredCandidates>,
)
    requires
        installed.len() == analyzed.len(),
        measured.len() == analyzed.len(),
    ensures
        completed_rows(analyzed, installed, measured).len() == analyzed.len(),
        forall|i: int|
            0 <= i < analyzed.len() ==> {
                &&& measured[i].local is Some ==> (#[trigger] completed_rows(
                    analyzed,
                    installed,
                    measured,
                )[i]).measured_tps == measured[i].local
                &&& measured[i].local is None && measured[i].community is Some ==> completed_rows(
                    analyzed,
                    installed,
                    measured,
                )[i].measured_tps == measured[i].community
                &&& measured[i].local is None && measured[i].community is None ==> completed_rows(
                    analyzed,
                    installed,
                    measured,
                )[i].measured_tps == measured[i].preset
                &&& completed_rows(analyzed, installed, measured)[i].installed == installed[i]
                &&& completed_rows(analyzed, installed, measured)[i].model == analyzed[i].model
            },
{
    let s = Seq::new(analyzed.len(), |i: int| settled(analyzed[i], installed[i], measured[i]));
    crate::calibration::lemma_calibration_scales_every_estimated_row(s);
    assert forall|i: int| 0 <= i < analyzed.len() implies #[trigger] completed_rows(
        analyzed,
        installed,
        measured,
    )[i].measured_tps == s[i].measured_tps by {
        assert(completed_rows(analyzed, installed, measured) == crate::calibration::calibrate_all(s));
    }
}

/// The ranked entries are exactly the catalog entries, in catalog order, that
/// are not demoted and either run on any backend or require the backend of
/// `specs`; the hidden count is the number of entries that require another
/// backend.
pub proof fn lemma_ranking_follows_required_backend(models: Seq<LlmModel>, specs: SystemSpecs)
    ensures
        rankable_seq(models, specs) == models.filter(
            |m: LlmModel|
                (m.required_backend is None || m.required_backend == Some(specs.backend))
                    && !m.sanitization_demoted,
        ),
        incompatible_count(models, specs) == models.filter(
            |m: LlmModel|
                m.required_backend is Some && m.required_backend != Some(specs.backend),
        ).len(),
{
    let p1 = |m: LlmModel| is_rankable(m, specs);
    let q1 = |m: LlmModel|
        (m.required_backend is None || m.required_backend == Some(specs.backend))
            && !m.sanitization_demoted;
    let p2 = |m: LlmModel| !spec_backend_compatible(m, specs);
    let q2 = |m: LlmModel| m.required_backend is Some && m.required_backend != Some(specs.backend);
    assert(p1 =~= q1);
    assert(p2 =~= q2);
}

/// With a profile's config, the request carries the profile unchanged but
/// for the context cap, which is the caller's context limit when one is
/// given and the profile's cap otherwise; without a config, the request
/// carries the context limit alone.
pub proof fn lemma_profile_reaches_the_analysis(context_limit: Option<u32>, config: CalcConfig)
    ensures
        merged_config(context_limit, config).memory_bandwidth_gbps == config.memory_bandwidth_gbps,
        merged_config(context_limit, config).efficiency == config.efficiency,
        context_limit is Some ==> merged_config(context_limit, config).context_cap == context_limit,
        context_limit is None ==> merged_config(context_limit, config).context_cap
            == config.context_cap,
{
}

} // verus!
