use std::collections::HashSet;

use llmfit_core::analysis::{
    analyze_with_optional_config, backend_hidden_count, build_fits, build_model_fits,
    build_model_fits_with_config, complete_fits, rankable_models, AnalysisRequest, FitMode,
    MeasuredCandidates,
};
use llmfit_core::catalog::{backend_compatible, GpuBackend, LlmModel, ModelDatabase, SystemSpecs};
use llmfit_core::fit::{
    CalcConfig, EstimateBasis, EstimateConfidence, InferenceRuntime, MeasuredSource, MeasuredTps,
    ModelFit,
};
use llmfit_core::installed::{InstalledIndex, NameSet, Provider};

fn model(name: &str, params_m: u64, demoted: bool, required: Option<GpuBackend>) -> LlmModel {
    LlmModel {
        name: name.to_string(),
        params_m,
        is_moe: false,
        sanitization_demoted: demoted,
        required_backend: required,
    }
}

fn catalog() -> ModelDatabase {
    ModelDatabase::from_models(vec![
        model("meta-llama/Llama-3.1-8B-Instruct", 8_000, false, None),
        model("Qwen/Qwen2.5-7B-Instruct", 7_000, false, None),
        model("Qwen/Qwen2.5-0.5B-Draft", 500, true, None),
        model("mlx-community/Llama-3.2-3B-4bit", 3_000, false, Some(GpuBackend::Metal)),
        model("deepseek-ai/DeepSeek-R1", 684_000, true, None),
        model("mistralai/Mistral-7B-Instruct-v0.3", 7_000, false, Some(GpuBackend::Cuda)),
        model("mlx-community/Qwen-draft-mlx", 500, true, Some(GpuBackend::Metal)),
    ])
}

fn matcher(_p: Provider, m: &LlmModel, set: &NameSet) -> bool {
    set.contains(&m.name)
}

fn specs_with_gpu() -> SystemSpecs {
    SystemSpecs { backend: GpuBackend::Cuda }
}

fn demoted_names(db: &ModelDatabase) -> HashSet<String> {
    let names: HashSet<String> = db
        .get_all_models()
        .iter()
        .filter(|m| m.is_sanitization_demoted())
        .map(|m| m.name.clone())
        .collect();
    assert!(
        !names.is_empty(),
        "expected the embedded catalog to contain at least one sanitization-demoted entry"
    );
    names
}

#[test]
fn build_model_fits_excludes_sanitization_demoted_entries() {
    let db = catalog();
    let specs = specs_with_gpu();
    let demoted = demoted_names(&db);

    let fits = build_model_fits(&db, &specs, &InstalledIndex::empty(), &matcher, None, None);

    assert!(
        fits.iter().all(|f| !demoted.contains(&f.model.name)),
        "a sanitization-demoted model leaked into ranked fits"
    );
}

#[test]
fn rankable_models_drops_demoted_and_backend_incompatible_entries() {
    let db = catalog();
    let specs = specs_with_gpu();
    let demoted = demoted_names(&db);

    let rankable: Vec<&LlmModel> = rankable_models(db.get_all_models(), &specs);

    assert!(!rankable.is_empty(), "expected some rankable models");
    assert!(
        rankable.iter().all(|m| !demoted.contains(&m.name)),
        "a sanitization-demoted model survived rankable_models"
    );
    assert!(
        rankable.iter().all(|m| backend_compatible(m, &specs)),
        "a backend-incompatible model survived rankable_models"
    );
    assert!(
        rankable.len() < db.get_all_models().len(),
        "rankable_models should be a strict subset of the catalog"
    );
}

#[test]
fn rankable_models_keeps_catalog_order() {
    let db = catalog();
    let specs = specs_with_gpu();
    let names: Vec<&str> = rankable_models(db.get_all_models(), &specs)
        .iter()
        .map(|m| m.name.as_str())
        .collect();
    assert_eq!(
        names,
        vec![
            "meta-llama/Llama-3.1-8B-Instruct",
            "Qwen/Qwen2.5-7B-Instruct",
            "mistralai/Mistral-7B-Instruct-v0.3",
        ]
    );
}

#[test]
fn rankable_models_on_metal_swaps_the_backend_specific_entries() {
    let db = catalog();
    let specs = SystemSpecs { backend: GpuBackend::Metal };
    let names: Vec<&str> =
        rankable_models(db.get_all_models(), &specs).iter().map(|m| m.name.as_str()).collect();
    assert_eq!(
        names,
        vec![
            "meta-llama/Llama-3.1-8B-Instruct",
            "Qwen/Qwen2.5-7B-Instruct",
            "mlx-community/Llama-3.2-3B-4bit",
        ]
    );
}

#[test]
fn backend_hidden_count_counts_only_incompatible_entries() {
    let db = catalog();
    // Two Metal-only entries are hidden on CUDA, the demoted one among them.
    assert_eq!(backend_hidden_count(db.get_all_models(), &specs_with_gpu()), 2);
    // One CUDA-only entry is hidden on Metal.
    assert_eq!(
        backend_hidden_count(db.get_all_models(), &SystemSpecs { backend: GpuBackend::Metal }),
        1
    );
    assert_eq!(backend_hidden_count(&[], &specs_with_gpu()), 0);
}

#[test]
fn sweep_partitions_the_catalog() {
    let db = catalog();
    let specs = specs_with_gpu();
    let ranked = rankable_models(db.get_all_models(), &specs).len();
    let hidden = backend_hidden_count(db.get_all_models(), &specs);
    let demoted_but_runnable = db
        .get_all_models()
        .iter()
        .filter(|m| backend_compatible(m, &specs) && m.is_sanitization_demoted())
        .count();
    assert_eq!(ranked + hidden + demoted_but_runnable, db.get_all_models().len());
}

#[test]
fn analyze_with_optional_config_prefers_the_callers_context_limit() {
    let profile = CalcConfig { context_cap: Some(8192), memory_bandwidth_gbps: Some(100_000), efficiency: None };
    match analyze_with_optional_config(Some(4096), Some(&profile)) {
        AnalysisRequest::Config { config } => {
            assert_eq!(config.context_cap, Some(4096));
            assert_eq!(config.memory_bandwidth_gbps, Some(100_000));
        }
        other => panic!("unexpected request {:?}", other),
    }
    match analyze_with_optional_config(None, Some(&profile)) {
        AnalysisRequest::Config { config } => assert_eq!(config.context_cap, Some(8192)),
        other => panic!("unexpected request {:?}", other),
    }
    match analyze_with_optional_config(Some(2048), None) {
        AnalysisRequest::ContextLimit { context_limit } => assert_eq!(context_limit, Some(2048)),
        other => panic!("unexpected request {:?}", other),
    }
    match analyze_with_optional_config(None, None) {
        AnalysisRequest::ContextLimit { context_limit } => assert_eq!(context_limit, None),
        other => panic!("unexpected request {:?}", other),
    }
}

#[test]
fn build_model_fits_forces_the_runtime_and_marks_installed_rows() {
    let db = catalog();
    let specs = specs_with_gpu();
    let mut installed = InstalledIndex::empty();
    installed.ollama.insert("Qwen/Qwen2.5-7B-Instruct".to_string());
    let plans = build_model_fits(&db, &specs, &installed, &matcher, Some(4096), Some(InferenceRuntime::Vllm));
    assert_eq!(plans.len(), 3);
    for plan in &plans {
        match plan.request {
            AnalysisRequest::ForcedRuntime { context_limit, runtime } => {
                assert_eq!(context_limit, Some(4096));
                assert_eq!(runtime, Some(InferenceRuntime::Vllm));
            }
            other => panic!("unexpected request {:?}", other),
        }
        assert_eq!(plan.installed, plan.model.name == "Qwen/Qwen2.5-7B-Instruct");
    }
}

#[test]
fn build_model_fits_with_config_carries_the_profile_to_every_row() {
    let db = catalog();
    let specs = specs_with_gpu();
    let plans = build_model_fits_with_config(
        &db,
        &specs,
        &InstalledIndex::empty(),
        &matcher,
        None,
        CalcConfig { context_cap: Some(16384), memory_bandwidth_gbps: Some(936_000), efficiency: Some(550_000) },
    );
    assert_eq!(plans.len(), 3);
    for plan in &plans {
        match plan.request {
            AnalysisRequest::Config { config } => {
                assert_eq!(config.context_cap, Some(16384));
                assert_eq!(config.memory_bandwidth_gbps, Some(936_000));
                assert_eq!(config.efficiency, Some(550_000));
            }
            other => panic!("unexpected request {:?}", other),
        }
        assert!(!plan.installed);
    }
}

fn fit_for(m: &LlmModel, estimated_tps: u64) -> ModelFit {
    ModelFit {
        model: m.clone(),
        installed: false,
        best_quant: "Q4_K_M".to_string(),
        estimated_tps,
        measured_tps: None,
        estimate_basis: EstimateBasis { local_calibration: None, formula_tps: 0 },
        estimate_confidence: EstimateConfidence::Formula,
    }
}

fn measured(tok_s: u64, source: MeasuredSource) -> Option<MeasuredTps> {
    Some(MeasuredTps { tok_s, source })
}

#[test]
fn complete_fits_prefers_local_then_community_then_preset_measurements() {
    let db = catalog();
    let specs = specs_with_gpu();
    let mut installed = InstalledIndex::empty();
    installed.lmstudio_disk.insert("mistralai/Mistral-7B-Instruct-v0.3".to_string());
    let plans = build_model_fits(&db, &specs, &installed, &matcher, None, None);
    let analyzed: Vec<ModelFit> = plans.iter().map(|p| fit_for(p.model, 10_000)).collect();
    // Only preset measurements: nothing anchors the calibration.
    let candidates = vec![
        MeasuredCandidates {
            local: None,
            community: None,
            preset: measured(11_000, MeasuredSource::Localmaxxing),
        },
        MeasuredCandidates {
            local: None,
            community: None,
            preset: measured(12_000, MeasuredSource::Localmaxxing),
        },
        MeasuredCandidates { local: None, community: None, preset: None },
    ];
    let fits = complete_fits(&plans, analyzed, &candidates);
    assert_eq!(fits.len(), 3);
    assert_eq!(fits[0].measured_tps.unwrap().tok_s, 11_000);
    assert_eq!(fits[1].measured_tps.unwrap().tok_s, 12_000);
    assert!(fits[2].measured_tps.is_none());
    assert!(fits[2].installed);
    assert!(!fits[0].installed);
    for f in &fits {
        assert_eq!(f.estimated_tps, 10_000);
        assert!(f.estimate_basis.local_calibration.is_none());
    }
    assert_eq!(fits[0].estimate_confidence, EstimateConfidence::Measured);
    assert_eq!(fits[2].estimate_confidence, EstimateConfidence::Formula);

    let analyzed: Vec<ModelFit> = plans.iter().map(|p| fit_for(p.model, 10_000)).collect();
    let candidates = vec![
        MeasuredCandidates {
            local: measured(20_000, MeasuredSource::LocalBench),
            community: measured(30_000, MeasuredSource::CommunityLlmfit),
            preset: measured(40_000, MeasuredSource::Localmaxxing),
        },
        MeasuredCandidates {
            local: None,
            community: measured(30_000, MeasuredSource::CommunityLlmfit),
            preset: measured(40_000, MeasuredSource::Localmaxxing),
        },
        MeasuredCandidates { local: None, community: None, preset: None },
    ];
    let fits = complete_fits(&plans, analyzed, &candidates);
    assert_eq!(fits[0].measured_tps.unwrap().source, MeasuredSource::LocalBench);
    assert_eq!(fits[1].measured_tps.unwrap().source, MeasuredSource::CommunityLlmfit);
    // Ratios 2.0 and 3.0: the median 2.5 scales every row.
    for f in &fits {
        assert_eq!(f.estimate_basis.local_calibration, Some(2_500_000));
        assert_eq!(f.estimate_basis.formula_tps, 10_000);
        assert_eq!(f.estimated_tps, 25_000);
    }
    assert_eq!(fits[0].estimate_confidence, EstimateConfidence::Measured);
    assert_eq!(fits[2].estimate_confidence, EstimateConfidence::Calibrated);
}

#[test]
fn completion_ignores_the_installed_marker_beyond_the_marker() {
    let db = catalog();
    let specs = specs_with_gpu();
    let mut installed = InstalledIndex::empty();
    installed.ollama.insert("meta-llama/Llama-3.1-8B-Instruct".to_string());
    let marked = build_model_fits(&db, &specs, &installed, &matcher, None, None);
    let unmarked = build_model_fits(&db, &specs, &InstalledIndex::empty(), &matcher, None, None);
    let candidates = vec![
        MeasuredCandidates {
            local: measured(15_000, MeasuredSource::LocalBench),
            community: None,
            preset: None,
        },
        MeasuredCandidates { local: None, community: None, preset: None },
        MeasuredCandidates { local: None, community: None, preset: None },
    ];
    let a = complete_fits(&marked, marked.iter().map(|p| fit_for(p.model, 10_000)).collect(), &candidates);
    let b = complete_fits(&unmarked, unmarked.iter().map(|p| fit_for(p.model, 10_000)).collect(), &candidates);
    assert!(a[0].installed);
    assert!(!b[0].installed);
    for (x, y) in a.iter().zip(b.iter()) {
        assert_eq!(x.model.name, y.model.name);
        assert_eq!(x.estimated_tps, y.estimated_tps);
        assert_eq!(x.estimate_basis.local_calibration, y.estimate_basis.local_calibration);
        assert_eq!(x.estimate_confidence, y.estimate_confidence);
    }
}

#[test]
fn sweeps_from_two_indices_differ_in_installed_markers_only() {
    let db = catalog();
    let specs = specs_with_gpu();
    let mut installed = InstalledIndex::empty();
    installed.docker_mr.insert("Qwen/Qwen2.5-7B-Instruct".to_string());
    let mode = FitMode::Runtime(Some(InferenceRuntime::LlamaCpp));
    let a = build_fits(&db, &specs, &installed, &matcher, Some(8192), mode);
    let b = build_fits(&db, &specs, &InstalledIndex::empty(), &matcher, Some(8192), mode);
    assert_eq!(a.len(), b.len());
    for (x, y) in a.iter().zip(b.iter()) {
        assert_eq!(x.model.name, y.model.name);
        assert!(matches!(
            (x.request, y.request),
            (
                AnalysisRequest::ForcedRuntime { context_limit: Some(8192), runtime: Some(InferenceRuntime::LlamaCpp) },
                AnalysisRequest::ForcedRuntime { context_limit: Some(8192), runtime: Some(InferenceRuntime::LlamaCpp) }
            )
        ));
        assert!(!y.installed);
        assert_eq!(x.installed, x.model.name == "Qwen/Qwen2.5-7B-Instruct");
    }
}
