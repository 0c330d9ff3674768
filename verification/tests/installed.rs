use llmfit_core::catalog::LlmModel;
use llmfit_core::installed::{InstalledIndex, NameSet, Provider, ProviderReport};

fn named(name: &str) -> LlmModel {
    LlmModel {
        name: name.to_string(),
        params_m: 8_000,
        is_moe: false,
        sanitization_demoted: false,
        required_backend: None,
    }
}

/// Stands in for the providers' matchers: LM Studio API ids match by
/// substring, every other set by equality.
fn matcher(p: Provider, m: &LlmModel, set: &NameSet) -> bool {
    match p {
        Provider::LmStudio => set.names().iter().any(|id| id.contains(m.name.as_str())),
        _ => set.contains(&m.name),
    }
}

#[test]
fn empty_index_has_nothing_installed() {
    let index = InstalledIndex::empty();
    let m = named("meta-llama/Llama-3.1-8B-Instruct");
    assert!(!index.is_installed(&m, &matcher));
    assert!(index.installed_providers(&m, &matcher).is_empty());
    assert_eq!(index.ollama_count, 0);
    assert_eq!(index.ramalama_count, 0);
    assert_eq!(index.lmstudio_disk.len(), 0);
}

#[test]
fn installed_providers_lists_providers_in_fixed_order() {
    let mut index = InstalledIndex::empty();
    let name = "Qwen/Qwen2.5-7B-Instruct".to_string();
    index.ramalama.insert(name.clone());
    index.docker_mr.insert(name.clone());
    index.ollama.insert(name.clone());
    index.vllm.insert("other".to_string());
    let m = named(&name);
    assert!(index.is_installed(&m, &matcher));
    assert_eq!(index.installed_providers(&m, &matcher), vec!["Ollama", "Docker", "RamaLama"]);
}

#[test]
fn lm_studio_is_listed_once_for_api_or_disk() {
    let name = "mistralai/Mistral-7B-Instruct-v0.3".to_string();
    let m = named(&name);

    let mut disk_only = InstalledIndex::empty();
    disk_only.lmstudio_disk.insert(name.clone());
    assert!(disk_only.is_installed(&m, &matcher));
    assert_eq!(disk_only.installed_providers(&m, &matcher), vec!["LM Studio"]);

    let mut api_by_substring = InstalledIndex::empty();
    api_by_substring.lmstudio.insert(format!("lmstudio-community/{}-GGUF", name));
    assert!(api_by_substring.is_installed(&m, &matcher));
    assert_eq!(api_by_substring.installed_providers(&m, &matcher), vec!["LM Studio"]);

    let mut both = InstalledIndex::empty();
    both.lmstudio.insert(name.clone());
    both.lmstudio_disk.insert(name.clone());
    both.mlx.insert(name.clone());
    both.llamacpp.insert(name.clone());
    assert_eq!(both.installed_providers(&m, &matcher), vec!["MLX", "llama.cpp", "LM Studio"]);
}

#[test]
fn is_installed_agrees_with_installed_providers() {
    let mut index = InstalledIndex::empty();
    index.vllm.insert("a".to_string());
    for name in ["a", "b", ""] {
        let m = named(name);
        assert_eq!(
            index.is_installed(&m, &matcher),
            !index.installed_providers(&m, &matcher).is_empty()
        );
    }
    assert_eq!(index.installed_providers(&named("a"), &matcher), vec!["vLLM"]);
}

#[test]
fn the_matchers_decide() {
    let mut index = InstalledIndex::empty();
    index.ollama.insert("qwen2.5:7b".to_string());
    let m = named("Qwen/Qwen2.5-7B-Instruct");
    assert!(!index.is_installed(&m, &matcher));
    let ollama_tags = |p: Provider, _m: &LlmModel, set: &NameSet| p == Provider::Ollama && set.len() > 0;
    assert!(index.is_installed(&m, &ollama_tags));
    assert_eq!(index.installed_providers(&m, &ollama_tags), vec!["Ollama"]);
}

#[test]
fn name_sets_hold_each_name_once() {
    let mut set = NameSet::new();
    assert!(set.insert("a".to_string()));
    assert!(!set.insert("a".to_string()));
    assert!(set.insert("b".to_string()));
    assert_eq!(set.len(), 2);
    assert!(set.contains(&"b".to_string()));
    assert!(!set.contains(&"c".to_string()));
    let from = NameSet::from_names(vec!["x".to_string(), "y".to_string(), "x".to_string()]);
    assert_eq!(from.len(), 2);
    assert_eq!(from.names(), &vec!["x".to_string(), "y".to_string()]);
}

fn report(names: &[&str], count: usize) -> ProviderReport {
    ProviderReport { names: names.iter().map(|n| n.to_string()).collect(), count }
}

#[test]
fn from_reports_places_each_report_and_tolerates_a_failed_disk_scan() {
    let index = InstalledIndex::from_reports(
        report(&["a", "a"], 3),
        vec!["b".to_string()],
        report(&["c"], 1),
        report(&[], 2),
        report(&["d"], 5),
        None,
        report(&["e"], 1),
        report(&["f"], 4),
    );
    assert_eq!(index.ollama_count, 3);
    assert_eq!(index.ollama.len(), 1);
    assert_eq!(index.docker_mr_count, 2);
    assert_eq!(index.lmstudio_count, 5);
    assert_eq!(index.lmstudio_disk_count, 0);
    assert_eq!(index.lmstudio_disk.len(), 0);
    assert_eq!(index.ramalama_count, 4);
    assert_eq!(index.installed_providers(&named("b"), &matcher), vec!["MLX"]);
    assert_eq!(index.installed_providers(&named("d"), &matcher), vec!["LM Studio"]);
    assert_eq!(index.installed_providers(&named("f"), &matcher), vec!["RamaLama"]);

    let with_disk = InstalledIndex::from_reports(
        report(&[], 0),
        Vec::new(),
        report(&[], 0),
        report(&[], 0),
        report(&[], 0),
        Some(report(&["g"], 7)),
        report(&[], 0),
        report(&[], 0),
    );
    assert_eq!(with_disk.lmstudio_disk_count, 7);
    assert!(with_disk.is_installed(&named("g"), &matcher));
    assert!(!with_disk.is_installed(&named("a"), &matcher));
}
