//! Which catalog entries are installed with which inference provider.
use vstd::prelude::*;

use crate::catalog::LlmModel;

verus! {

/// The texts of `names`, in order.
pub open spec fn texts(names: Seq<String>) -> Seq<Seq<char>> {
    names.map_values(|s: String| s@)
}

/// Pushing onto a sequence inserts into its set.
proof fn lemma_push_to_set(s: Seq<Seq<char>>, x: Seq<char>)
    ensures
        s.push(x).to_set() == s.to_set().insert(x),
{
    assert forall|y: Seq<char>| #[trigger] s.push(x).to_set().contains(y) == s.to_set().insert(
        x,
    ).contains(y) by {
        if s.contains(y) {
            let k = choose|k: int| 0 <= k < s.len() && s[k] == y;
            assert(s.push(x)[k] == y);
        }
        if y == x {
            assert(s.push(x)[s.len() as int] == x);
        }
        if s.push(x).contains(y) && y != x {
            let k = choose|k: int| 0 <= k < s.push(x).len() && s.push(x)[k] == y;
            assert(s[k] == y);
        }
    }
    assert(s.push(x).to_set() =~= s.to_set().insert(x));
}

/// Appends `label` to `out` when `hit`.
fn push_label_if(out: &mut Vec<&'static str>, hit: bool, label: &'static str)
    ensures
        final(out)@ == old(out)@ + label_if(hit, label),
{
    if hit {
        out.push(label);
    }
    assert(out@ =~= old(out)@ + label_if(hit, label));
}

/// A set of names, each held once.
#[derive(Debug)]
pub struct NameSet {
    names: Vec<String>,
}

impl Clone for NameSet {
    fn clone(&self) -> (r: Self)
        ensures
            r@ == self@,
    {
        proof {
            use_type_invariant(self);
        }
        let names = self.names.clone();
        assert(names@ =~= self.names@) by {
            assert forall|i: int| 0 <= i < names@.len() implies names@[i] == self.names@[i] by {
                assert(cloned::<String>(self.names[i], names[i]));
            }
        }
        NameSet { names }
    }
}

impl View for NameSet {
    type V = Set<Seq<char>>;

    closed spec fn view(&self) -> Set<Seq<char>> {
        texts(self.names@).to_set()
    }
}

impl NameSet {
    #[verifier::type_invariant]
    spec fn held_once(self) -> bool {
        texts(self.names@).no_duplicates()
    }

    /// The empty set.
    pub fn new() -> (r: NameSet)
        ensures
            r@ == Set::<Seq<char>>::empty(),
    {
        let r = NameSet { names: Vec::new() };
        assert(r@ =~= Set::<Seq<char>>::empty());
        r
    }

    /// Whether the set holds `name`.
    pub fn contains(&self, name: &String) -> (r: bool)
        ensures
            r == self@.contains(name@),
    {
        let mut i: usize = 0;
        while i < self.names.len()
            invariant
                i <= self.names@.len(),
                forall|j: int| 0 <= j < i ==> #[trigger] self.names@[j]@ != name@,
            decreases self.names@.len() - i,
        {
            if self.names[i] == *name {
                assert(texts(self.names@)[i as int] == name@);
                return true;
            }
            i += 1;
        }
        assert(!texts(self.names@).contains(name@));
        false
    }

    /// Adds `name`; returns whether it was not there yet.
    pub fn insert(&mut self, name: String) -> (added: bool)
        ensures
            final(self)@ == old(self)@.insert(name@),
            added == !old(self)@.contains(name@),
    {
        proof {
            use_type_invariant(&*self);
        }
        if self.contains(&name) {
            assert(self@.insert(name@) =~= self@);
            return false;
        }
        let ghost before = self.names@;
        let ghost n = name@;
        let mut names: Vec<String> = Vec::new();
        std::mem::swap(&mut names, &mut self.names);
        names.push(name);
        assert(texts(names@) =~= texts(before).push(n));
        assert(texts(names@).no_duplicates()) by {
            assert(!texts(before).contains(n));
        }
        self.names = names;
        proof {
            lemma_push_to_set(texts(before), n);
        }
        true
    }

    /// How many names the set holds.
    pub fn len(&self) -> (r: usize)
        ensures
            r == self@.len(),
    {
        proof {
            use_type_invariant(self);
            texts(self.names@).unique_seq_to_set();
        }
        self.names.len()
    }

    /// The names of the set, each once.
    pub fn names(&self) -> (r: &Vec<String>)
        ensures
            texts(r@).to_set() == self@,
            texts(r@).no_duplicates(),
    {
        proof {
            use_type_invariant(self);
        }
        &self.names
    }

    /// The set of the names in `names`.
    pub fn from_names(names: Vec<String>) -> (r: NameSet)
        ensures
            r@ == texts(names@).to_set(),
    {
        let mut r = NameSet::new();
        let mut i: usize = 0;
        while i < names.len()
            invariant
                i <= names@.len(),
                r@ == texts(names@.take(i as int)).to_set(),
            decreases names@.len() - i,
        {
            r.insert(names[i].clone());
            assert(texts(names@.take(i + 1)) =~= texts(names@.take(i as int)).push(names@[i as int]@));
            proof {
                lemma_push_to_set(texts(names@.take(i as int)), names@[i as int]@);
            }
            i += 1;
        }
        assert(names@.take(names@.len() as int) =~= names@);
        r
    }
}

/// The providers whose installed models the index holds.
#[derive(Clone, Copy, Debug, PartialEq, Eq, Structural)]
pub enum Provider {
    Ollama,
    Mlx,
    LlamaCpp,
    DockerModelRunner,
    /// Models reported by LM Studio's API.
    LmStudio,
    /// Models found in LM Studio's models directory.
    LmStudioDisk,
    Vllm,
    RamaLama,
}

/// `seq![label]` when `hit`, the empty sequence otherwise.
pub open spec fn label_if(hit: bool, label: &'static str) -> Seq<&'static str> {
    if hit {
        seq![label]
    } else {
        Seq::empty()
    }
}

/// Whether some provider answered that the model is installed.
pub open spec fn any_installed(a: spec_fn(Provider) -> bool) -> bool {
    ||| a(Provider::Ollama)
    ||| a(Provider::Mlx)
    ||| a(Provider::LlamaCpp)
    ||| a(Provider::DockerModelRunner)
    ||| a(Provider::LmStudio)
    ||| a(Provider::LmStudioDisk)
    ||| a(Provider::Vllm)
    ||| a(Provider::RamaLama)
}

/// The display names of the providers that answered that the model is
/// installed, in the fixed order Ollama, MLX, llama.cpp, Docker, LM Studio
/// (through its API or on disk), vLLM, RamaLama.
pub open spec fn provider_labels(a: spec_fn(Provider) -> bool) -> Seq<&'static str> {
    label_if(a(Provider::Ollama), "Ollama") + label_if(a(Provider::Mlx), "MLX") + label_if(
        a(Provider::LlamaCpp),
        "llama.cpp",
    ) + label_if(a(Provider::DockerModelRunner), "Docker") + label_if(
        a(Provider::LmStudio) || a(Provider::LmStudioDisk),
        "LM Studio",
    ) + label_if(a(Provider::Vllm), "vLLM") + label_if(a(Provider::RamaLama), "RamaLama")
}

/// What one provider reported: the names of the models it has installed, and
/// how many models it reported in all.
pub struct ProviderReport {
    pub names: Vec<String>,
    pub count: usize,
}

/// Aggregated installed-model sets from all supported inference providers,
/// each set holding the names under which its provider reports its models.
///
/// Whether a catalog entry is among a provider's models is for that
/// provider's matcher to say: the LM Studio API ids, for instance, are
/// matched by substring, while the names found in LM Studio's models
/// directory are matched by equality.
#[derive(Clone, Debug)]
pub struct InstalledIndex {
    pub ollama: NameSet,
    pub ollama_count: usize,
    pub mlx: NameSet,
    pub llamacpp: NameSet,
    pub llamacpp_count: usize,
    pub docker_mr: NameSet,
    pub docker_mr_count: usize,
    pub lmstudio: NameSet,
    pub lmstudio_count: usize,
    pub lmstudio_disk: NameSet,
    pub lmstudio_disk_count: usize,
    pub vllm: NameSet,
    pub vllm_count: usize,
    pub ramalama: NameSet,
    pub ramalama_count: usize,
}

impl InstalledIndex {
    /// The set that holds the models of `p`.
    pub open spec fn set_of(&self, p: Provider) -> NameSet {
        match p {
            Provider::Ollama => self.ollama,
            Provider::Mlx => self.mlx,
            Provider::LlamaCpp => self.llamacpp,
            Provider::DockerModelRunner => self.docker_mr,
            Provider::LmStudio => self.lmstudio,
            Provider::LmStudioDisk => self.lmstudio_disk,
            Provider::Vllm => self.vllm,
            Provider::RamaLama => self.ramalama,
        }
    }

    /// Whether `a` holds, for every provider, an answer that `matches` can
    /// give on `model` and that provider's set.
    pub open spec fn answered_by<F: Fn(Provider, &LlmModel, &NameSet) -> bool>(
        &self,
        matches: F,
        model: LlmModel,
        a: spec_fn(Provider) -> bool,
    ) -> bool {
        forall|p: Provider| #[trigger] matches.ensures((p, &model, &self.set_of(p)), a(p))
    }

    /// Whether `matches` can be asked about `model` for every provider.
    pub open spec fn can_ask<F: Fn(Provider, &LlmModel, &NameSet) -> bool>(
        &self,
        matches: F,
        model: LlmModel,
    ) -> bool {
        forall|p: Provider| #[trigger] matches.requires((p, &model, &self.set_of(p)))
    }

    /// An index in which no provider has anything installed.
    pub fn empty() -> (r: InstalledIndex)
        ensures
            forall|p: Provider| #[trigger] r.set_of(p)@ == Set::<Seq<char>>::empty(),
            r.ollama_count == 0,
            r.llamacpp_count == 0,
            r.docker_mr_count == 0,
            r.lmstudio_count == 0,
            r.lmstudio_disk_count == 0,
            r.vllm_count == 0,
            r.ramalama_count == 0,
    {
        InstalledIndex {
            ollama: NameSet::new(),
            ollama_count: 0,
            mlx: NameSet::new(),
            llamacpp: NameSet::new(),
            llamacpp_count: 0,
            docker_mr: NameSet::new(),
            docker_mr_count: 0,
            lmstudio: NameSet::new(),
            lmstudio_count: 0,
            lmstudio_disk: NameSet::new(),
            lmstudio_disk_count: 0,
            vllm: NameSet::new(),
            vllm_count: 0,
            ramalama: NameSet::new(),
            ramalama_count: 0,
        }
    }

    /// Gathers the reports of all providers into one index, each name held
    /// once. The disk scan of LM Studio's models directory only enriches the
    /// index: when it yields no report, the index records no disk models
    /// rather than failing.
    pub fn from_reports(
        ollama: ProviderReport,
        mlx: Vec<String>,
        llamacpp: ProviderReport,
        docker_mr: ProviderReport,
        lmstudio: ProviderReport,
        lmstudio_disk: Option<ProviderReport>,
        vllm: ProviderReport,
        ramalama: ProviderReport,
    ) -> (r: InstalledIndex)
        ensures
            r.ollama@ == texts(ollama.names@).to_set() && r.ollama_count == ollama.count,
            r.mlx@ == texts(mlx@).to_set(),
            r.llamacpp@ == texts(llamacpp.names@).to_set() && r.llamacpp_count == llamacpp.count,
            r.docker_mr@ == texts(docker_mr.names@).to_set() && r.docker_mr_count
                == docker_mr.count,
            r.lmstudio@ == texts(lmstudio.names@).to_set() && r.lmstudio_count == lmstudio.count,
            match lmstudio_disk {
                Some(d) => r.lmstudio_disk@ == texts(d.names@).to_set() && r.lmstudio_disk_count
                    == d.count,
                None => r.lmstudio_disk@ == Set::<Seq<char>>::empty() && r.lmstudio_disk_count
                    == 0,
            },
            r.vllm@ == texts(vllm.names@).to_set() && r.vllm_count == vllm.count,
            r.ramalama@ == texts(ramalama.names@).to_set() && r.ramalama_count == ramalama.count,
    {
        let (lmstudio_disk, lmstudio_disk_count) = match lmstudio_disk {
            Some(d) => (NameSet::from_names(d.names), d.count),
            None => (NameSet::new(), 0),
        };
        InstalledIndex {
            ollama: NameSet::from_names(ollama.names),
            ollama_count: ollama.count,
            mlx: NameSet::from_names(mlx),
            llamacpp: NameSet::from_names(llamacpp.names),
            llamacpp_count: llamacpp.count,
            docker_mr: NameSet::from_names(docker_mr.names),
            docker_mr_count: docker_mr.count,
            lmstudio: NameSet::from_names(lmstudio.names),
            lmstudio_count: lmstudio.count,
            lmstudio_disk,
            lmstudio_disk_count,
            vllm: NameSet::from_names(vllm.names),
            vllm_count: vllm.count,
            ramalama: NameSet::from_names(ramalama.names),
            ramalama_count: ramalama.count,
        }
    }

    /// Asks `matches` about `model` for every provider, in order.
    fn answers<F: Fn(Provider, &LlmModel, &NameSet) -> bool>(
        &self,
        model: &LlmModel,
        matches: &F,
    ) -> (r: [bool; 8])
        requires
            self.can_ask(*matches, *model),
        ensures
            matches.ensures((Provider::Ollama, model, &self.ollama), r[0]),
            matches.ensures((Provider::Mlx, model, &self.mlx), r[1]),
            matches.ensures((Provider::LlamaCpp, model, &self.llamacpp), r[2]),
            matches.ensures((Provider::DockerModelRunner, model, &self.docker_mr), r[3]),
            matches.ensures((Provider::LmStudio, model, &self.lmstudio), r[4]),
            matches.ensures((Provider::LmStudioDisk, model, &self.lmstudio_disk), r[5]),
            matches.ensures((Provider::Vllm, model, &self.vllm), r[6]),
            matches.ensures((Provider::RamaLama, model, &self.ramalama), r[7]),
    {
        assert(matches.requires((Provider::Ollama, model, &self.set_of(Provider::Ollama))));
        assert(matches.requires((Provider::Mlx, model, &self.set_of(Provider::Mlx))));
        assert(matches.requires((Provider::LlamaCpp, model, &self.set_of(Provider::LlamaCpp))));
        assert(matches.requires(
            (Provider::DockerModelRunner, model, &self.set_of(Provider::DockerModelRunner)),
        ));
        assert(matches.requires((Provider::LmStudio, model, &self.set_of(Provider::LmStudio))));
        assert(matches.requires(
            (Provider::LmStudioDisk, model, &self.set_of(Provider::LmStudioDisk)),
        ));
        assert(matches.requires((Provider::Vllm, model, &self.set_of(Provider::Vllm))));
        assert(matches.requires((Provider::RamaLama, model, &self.set_of(Provider::RamaLama))));
        [
            matches(Provider::Ollama, model, &self.ollama),
            matches(Provider::Mlx, model, &self.mlx),
            matches(Provider::LlamaCpp, model, &self.llamacpp),
            matches(Provider::DockerModelRunner, model, &self.docker_mr),
            matches(Provider::LmStudio, model, &self.lmstudio),
            matches(Provider::LmStudioDisk, model, &self.lmstudio_disk),
            matches(Provider::Vllm, model, &self.vllm),
            matches(Provider::RamaLama, model, &self.ramalama),
        ]
    }

    /// Returns `true` when the model is installed in any provider, as the
    /// providers' matchers `matches` answer for it.
    pub fn is_installed<F: Fn(Provider, &LlmModel, &NameSet) -> bool>(
        &self,
        model: &LlmModel,
        matches: &F,
    ) -> (r: bool)
        requires
            self.can_ask(*matches, *model),
        ensures
            exists|a: spec_fn(Provider) -> bool|
                #[trigger] self.answered_by(*matches, *model, a) && r == any_installed(a),
    {
        let b = self.answers(model, matches);
        let ghost a = |p: Provider|
            match p {
                Provider::Ollama => b[0],
                Provider::Mlx => b[1],
                Provider::LlamaCpp => b[2],
                Provider::DockerModelRunner => b[3],
                Provider::LmStudio => b[4],
                Provider::LmStudioDisk => b[5],
                Provider::Vllm => b[6],
                Provider::RamaLama => b[7],
            };
        assert(self.answered_by(*matches, *model, a));
        b[0] || b[1] || b[2] || b[3] || b[4] || b[5] || b[6] || b[7]
    }

    /// Returns the display names of all providers that have this model
    /// installed, as the providers' matchers `matches` answer for it.
    pub fn installed_providers<F: Fn(Provider, &LlmModel, &NameSet) -> bool>(
        &self,
        model: &LlmModel,
        matches: &F,
    ) -> (out: Vec<&'static str>)
        requires
            self.can_ask(*matches, *model),
        ensures
            exists|a: spec_fn(Provider) -> bool|
                #[trigger] self.answered_by(*matches, *model, a) && out@ == provider_labels(a),
    {
        let b = self.answers(model, matches);
        let ghost a = |p: Provider|
            match p {
                Provider::Ollama => b[0],
                Provider::Mlx => b[1],
                Provider::LlamaCpp => b[2],
                Provider::DockerModelRunner => b[3],
                Provider::LmStudio => b[4],
                Provider::LmStudioDisk => b[5],
                Provider::Vllm => b[6],
                Provider::RamaLama => b[7],
            };
        assert(self.answered_by(*matches, *model, a));
        let mut out: Vec<&'static str> = Vec::new();
        push_label_if(&mut out, b[0], "Ollama");
        push_label_if(&mut out, b[1], "MLX");
        push_label_if(&mut out, b[2], "llama.cpp");
        push_label_if(&mut out, b[3], "Docker");
        push_label_if(&mut out, b[4] || b[5], "LM Studio");
        push_label_if(&mut out, b[6], "vLLM");
        push_label_if(&mut out, b[7], "RamaLama");
        assert(out@ =~= provider_labels(a));
        out
    }
}

/// A model is installed somewhere exactly when some provider is listed for
/// it, whatever the providers' answers.
pub proof fn lemma_installed_iff_listed_somewhere(a: spec_fn(Provider) -> bool)
    ensures
        any_installed(a) <==> provider_labels(a).len() > 0,
{
}

/// Matchers that answer each question one way only answer
/// `is_installed` and `installed_providers` alike: the model is installed
/// exactly when some provider is listed for it.
pub proof fn lemma_single_answer_matchers_agree<F: Fn(Provider, &LlmModel, &NameSet) -> bool>(
    index: InstalledIndex,
    matches: F,
    model: LlmModel,
    a1: spec_fn(Provider) -> bool,
    a2: spec_fn(Provider) -> bool,
)
    requires
        forall|p: Provider, x: bool, y: bool|
            #[trigger] matches.ensures((p, &model, &index.set_of(p)), x) && #[trigger] matches.ensures(
                (p, &model, &index.set_of(p)),
                y,
            ) ==> x == y,
        index.answered_by(matches, model, a1),
        index.answered_by(matches, model, a2),
    ensures
        any_installed(a1) <==> provider_labels(a2).len() > 0,
{
    assert forall|p: Provider| #[trigger] a1(p) == a2(p) by {
        assert(matches.ensures((p, &model, &index.set_of(p)), a1(p)));
        assert(matches.ensures((p, &model, &index.set_of(p)), a2(p)));
    }
}

/// No element occurs twice in `s`.
pub open spec fn all_distinct(s: Seq<&'static str>) -> bool {
    forall|i: int, j: int| 0 <= i < j < s.len() ==> s[i] != s[j]
}

/// Appending a label that is not there yet keeps a sequence distinct.
proof fn lemma_append_new_label(s: Seq<&'static str>, hit: bool, label: &'static str)
    requires
        all_distinct(s),
        !s.contains(label),
    ensures
        all_distinct(s + label_if(hit, label)),
        forall|x: &'static str| #[trigger] (s + label_if(hit, label)).contains(x) ==> s.contains(x) || x == label,
{
    let t = s + label_if(hit, label);
    assert forall|x: &'static str| #[trigger] t.contains(x) implies s.contains(x) || x == label by {
        let k = choose|k: int| 0 <= k < t.len() && t[k] == x;
        if k < s.len() {
            assert(s[k] == x);
        }
    }
    assert forall|i: int, j: int| 0 <= i < j < t.len() implies t[i] != t[j] by {
        if j >= s.len() {
            assert(t[j] == label);
            assert(t[i] == s[i]);
        }
    }
}

/// The providers listed for a model are listed once each.
pub proof fn lemma_providers_listed_once(a: spec_fn(Provider) -> bool)
    ensures
        all_distinct(provider_labels(a)),
{
    let s0 = Seq::<&'static str>::empty();
    let s1 = s0 + label_if(a(Provider::Ollama), "Ollama");
    lemma_append_new_label(s0, a(Provider::Ollama), "Ollama");
    lemma_append_new_label(s1, a(Provider::Mlx), "MLX");
    let s2 = s1 + label_if(a(Provider::Mlx), "MLX");
    lemma_append_new_label(s2, a(Provider::LlamaCpp), "llama.cpp");
    let s3 = s2 + label_if(a(Provider::LlamaCpp), "llama.cpp");
    lemma_append_new_label(s3, a(Provider::DockerModelRunner), "Docker");
    let s4 = s3 + label_if(a(Provider::DockerModelRunner), "Docker");
    let lm = a(Provider::LmStudio) || a(Provider::LmStudioDisk);
    lemma_append_new_label(s4, lm, "LM Studio");
    let s5 = s4 + label_if(lm, "LM Studio");
    lemma_append_new_label(s5, a(Provider::Vllm), "vLLM");
    let s6 = s5 + label_if(a(Provider::Vllm), "vLLM");
    lemma_append_new_label(s6, a(Provider::RamaLama), "RamaLama");
    let s7 = s6 + label_if(a(Provider::RamaLama), "RamaLama");
    assert(s0 + label_if(a(Provider::Ollama), "Ollama") =~= label_if(a(Provider::Ollama), "Ollama"));
    assert(s7 =~= provider_labels(a));
}

} // verus!

verus! {

/// The position of a provider's label in the fixed listing order.
pub open spec fn label_rank(label: &'static str) -> int {
    if label == "Ollama" {
        0
    } else if label == "MLX" {
        1
    } else if label == "llama.cpp" {
        2
    } else if label == "Docker" {
        3
    } else if label == "LM Studio" {
        4
    } else if label == "vLLM" {
        5
    } else {
        6
    }
}

/// Whether `label` is one of the providers' display names.
pub open spec fn known_label(label: &'static str) -> bool {
    label == "Ollama" || label == "MLX" || label == "llama.cpp" || label == "Docker" || label
        == "LM Studio" || label == "vLLM" || label == "RamaLama"
}

/// Appending a label ranked after everything in `s` keeps `s` in rank order,
/// made of known labels, and adds that label alone, when `hit`.
proof fn lemma_append_ranked(s: Seq<&'static str>, hit: bool, label: &'static str)
    requires
        known_label(label),
        forall|i: int| 0 <= i < s.len() ==> known_label(#[trigger] s[i]),
        forall|i: int| 0 <= i < s.len() ==> label_rank(#[trigger] s[i]) < label_rank(label),
        forall|i: int, j: int| 0 <= i < j < s.len() ==> label_rank(s[i]) < label_rank(s[j]),
    ensures
        forall|i: int|
            0 <= i < (s + label_if(hit, label)).len() ==> known_label(
                #[trigger] (s + label_if(hit, label))[i],
            ),
        forall|i: int|
            0 <= i < (s + label_if(hit, label)).len() ==> label_rank(
                #[trigger] (s + label_if(hit, label))[i],
            ) <= label_rank(label),
        forall|i: int, j: int|
            0 <= i < j < (s + label_if(hit, label)).len() ==> label_rank(
                (s + label_if(hit, label))[i],
            ) < label_rank((s + label_if(hit, label))[j]),
        forall|y: &'static str|
            #[trigger] (s + label_if(hit, label)).contains(y) == (s.contains(y) || (hit && y
                == label)),
{
    let t = s + label_if(hit, label);
    assert forall|y: &'static str| #[trigger] t.contains(y) == (s.contains(y) || (hit && y
        == label)) by {
        if t.contains(y) {
            let k = choose|k: int| 0 <= k < t.len() && t[k] == y;
            if k < s.len() {
                assert(s[k] == y);
            }
        }
        if s.contains(y) {
            let k = choose|k: int| 0 <= k < s.len() && s[k] == y;
            assert(t[k] == y);
        }
        if hit && y == label {
            assert(t[s.len() as int] == y);
        }
    }
    assert forall|i: int, j: int| 0 <= i < j < t.len() implies label_rank(t[i]) < label_rank(
        t[j],
    ) by {
        if j >= s.len() {
            assert(t[i] == s[i]);
        }
    }
    assert forall|i: int| 0 <= i < t.len() implies label_rank(#[trigger] t[i]) <= label_rank(label)
        && known_label(t[i]) by {
        if i < s.len() {
            assert(t[i] == s[i]);
        }
    }
}

/// Appending `label` when `hit` adds that label alone.
proof fn lemma_append_contains(s: Seq<&'static str>, hit: bool, label: &'static str, y: &'static str)
    ensures
        (s + label_if(hit, label)).contains(y) == (s.contains(y) || (hit && y == label)),
{
    let t = s + label_if(hit, label);
    if t.contains(y) {
        let k = choose|k: int| 0 <= k < t.len() && t[k] == y;
        if k < s.len() {
            assert(s[k] == y);
        }
    }
    if s.contains(y) {
        let k = choose|k: int| 0 <= k < s.len() && s[k] == y;
        assert(t[k] == y);
    }
    if hit && y == label {
        assert(t[s.len() as int] == y);
    }
}

/// Each provider's label is listed exactly when that provider's own matcher
/// answered yes (LM Studio when its API or its directory did), whatever the
/// other providers answered.
pub proof fn lemma_each_provider_listed_on_its_own_answer(a: spec_fn(Provider) -> bool)
    ensures
        provider_labels(a).contains("Ollama") == a(Provider::Ollama),
        provider_labels(a).contains("MLX") == a(Provider::Mlx),
        provider_labels(a).contains("llama.cpp") == a(Provider::LlamaCpp),
        provider_labels(a).contains("Docker") == a(Provider::DockerModelRunner),
        provider_labels(a).contains("LM Studio") == (a(Provider::LmStudio) || a(
            Provider::LmStudioDisk,
        )),
        provider_labels(a).contains("vLLM") == a(Provider::Vllm),
        provider_labels(a).contains("RamaLama") == a(Provider::RamaLama),
{
    let h4 = a(Provider::LmStudio) || a(Provider::LmStudioDisk);
    let s0 = Seq::<&'static str>::empty();
    let s1 = s0 + label_if(a(Provider::Ollama), "Ollama");
    lemma_append_contains(s0, a(Provider::Ollama), "Ollama", "Ollama");
    lemma_append_contains(s0, a(Provider::Ollama), "Ollama", "MLX");
    lemma_append_contains(s0, a(Provider::Ollama), "Ollama", "llama.cpp");
    lemma_append_contains(s0, a(Provider::Ollama), "Ollama", "Docker");
    lemma_append_contains(s0, a(Provider::Ollama), "Ollama", "LM Studio");
    lemma_append_contains(s0, a(Provider::Ollama), "Ollama", "vLLM");
    lemma_append_contains(s0, a(Provider::Ollama), "Ollama", "RamaLama");
    let s2 = s1 + label_if(a(Provider::Mlx), "MLX");
    lemma_append_contains(s1, a(Provider::Mlx), "MLX", "Ollama");
    lemma_append_contains(s1, a(Provider::Mlx), "MLX", "MLX");
    lemma_append_contains(s1, a(Provider::Mlx), "MLX", "llama.cpp");
    lemma_append_contains(s1, a(Provider::Mlx), "MLX", "Docker");
    lemma_append_contains(s1, a(Provider::Mlx), "MLX", "LM Studio");
    lemma_append_contains(s1, a(Provider::Mlx), "MLX", "vLLM");
    lemma_append_contains(s1, a(Provider::Mlx), "MLX", "RamaLama");
    let s3 = s2 + label_if(a(Provider::LlamaCpp), "llama.cpp");
    lemma_append_contains(s2, a(Provider::LlamaCpp), "llama.cpp", "Ollama");
    lemma_append_contains(s2, a(Provider::LlamaCpp), "llama.cpp", "MLX");
    lemma_append_contains(s2, a(Provider::LlamaCpp), "llama.cpp", "llama.cpp");
    lemma_append_contains(s2, a(Provider::LlamaCpp), "llama.cpp", "Docker");
    lemma_append_contains(s2, a(Provider::LlamaCpp), "llama.cpp", "LM Studio");
    lemma_append_contains(s2, a(Provider::LlamaCpp), "llama.cpp", "vLLM");
    lemma_append_contains(s2, a(Provider::LlamaCpp), "llama.cpp", "RamaLama");
    let s4 = s3 + label_if(a(Provider::DockerModelRunner), "Docker");
    lemma_append_contains(s3, a(Provider::DockerModelRunner), "Docker", "Ollama");
    lemma_append_contains(s3, a(Provider::DockerModelRunner), "Docker", "MLX");
    lemma_append_contains(s3, a(Provider::DockerModelRunner), "Docker", "llama.cpp");
    lemma_append_contains(s3, a(Provider::DockerModelRunner), "Docker", "Docker");
    lemma_append_contains(s3, a(Provider::DockerModelRunner), "Docker", "LM Studio");
    lemma_append_contains(s3, a(Provider::DockerModelRunner), "Docker", "vLLM");
    lemma_append_contains(s3, a(Provider::DockerModelRunner), "Docker", "RamaLama");
    let s5 = s4 + label_if(h4, "LM Studio");
    lemma_append_contains(s4, h4, "LM Studio", "Ollama");
    lemma_append_contains(s4, h4, "LM Studio", "MLX");
    lemma_append_contains(s4, h4, "LM Studio", "llama.cpp");
    lemma_append_contains(s4, h4, "LM Studio", "Docker");
    lemma_append_contains(s4, h4, "LM Studio", "LM Studio");
    lemma_append_contains(s4, h4, "LM Studio", "vLLM");
    lemma_append_contains(s4, h4, "LM Studio", "RamaLama");
    let s6 = s5 + label_if(a(Provider::Vllm), "vLLM");
    lemma_append_contains(s5, a(Provider::Vllm), "vLLM", "Ollama");
    lemma_append_contains(s5, a(Provider::Vllm), "vLLM", "MLX");
    lemma_append_contains(s5, a(Provider::Vllm), "vLLM", "llama.cpp");
    lemma_append_contains(s5, a(Provider::Vllm), "vLLM", "Docker");
    lemma_append_contains(s5, a(Provider::Vllm), "vLLM", "LM Studio");
    lemma_append_contains(s5, a(Provider::Vllm), "vLLM", "vLLM");
    lemma_append_contains(s5, a(Provider::Vllm), "vLLM", "RamaLama");
    let s7 = s6 + label_if(a(Provider::RamaLama), "RamaLama");
    lemma_append_contains(s6, a(Provider::RamaLama), "RamaLama", "Ollama");
    lemma_append_contains(s6, a(Provider::RamaLama), "RamaLama", "MLX");
    lemma_append_contains(s6, a(Provider::RamaLama), "RamaLama", "llama.cpp");
    lemma_append_contains(s6, a(Provider::RamaLama), "RamaLama", "Docker");
    lemma_append_contains(s6, a(Provider::RamaLama), "RamaLama", "LM Studio");
    lemma_append_contains(s6, a(Provider::RamaLama), "RamaLama", "vLLM");
    lemma_append_contains(s6, a(Provider::RamaLama), "RamaLama", "RamaLama");
    assert(s0 + label_if(a(Provider::Ollama), "Ollama") =~= label_if(a(Provider::Ollama), "Ollama"));
    assert(s7 =~= provider_labels(a));
}

/// Only providers' display names are listed, in the order Ollama, MLX,
/// llama.cpp, Docker, LM Studio, vLLM, RamaLama.
#[verifier::rlimit(100)]
pub proof fn lemma_providers_listed_in_fixed_order(a: spec_fn(Provider) -> bool)
    ensures
        forall|i: int|
            0 <= i < provider_labels(a).len() ==> known_label(#[trigger] provider_labels(a)[i]),
        forall|i: int, j: int|
            0 <= i < j < provider_labels(a).len() ==> label_rank(provider_labels(a)[i])
                < label_rank(provider_labels(a)[j]),
{
    let s0 = Seq::<&'static str>::empty();
    let h4 = a(Provider::LmStudio) || a(Provider::LmStudioDisk);
    lemma_append_ranked(s0, a(Provider::Ollama), "Ollama");
    let s1 = s0 + label_if(a(Provider::Ollama), "Ollama");
    lemma_append_ranked(s1, a(Provider::Mlx), "MLX");
    let s2 = s1 + label_if(a(Provider::Mlx), "MLX");
    lemma_append_ranked(s2, a(Provider::LlamaCpp), "llama.cpp");
    let s3 = s2 + label_if(a(Provider::LlamaCpp), "llama.cpp");
    lemma_append_ranked(s3, a(Provider::DockerModelRunner), "Docker");
    let s4 = s3 + label_if(a(Provider::DockerModelRunner), "Docker");
    lemma_append_ranked(s4, h4, "LM Studio");
    let s5 = s4 + label_if(h4, "LM Studio");
    lemma_append_ranked(s5, a(Provider::Vllm), "vLLM");
    let s6 = s5 + label_if(a(Provider::Vllm), "vLLM");
    lemma_append_ranked(s6, a(Provider::RamaLama), "RamaLama");
    let s7 = s6 + label_if(a(Provider::RamaLama), "RamaLama");
    assert(s0 + label_if(a(Provider::Ollama), "Ollama") =~= label_if(a(Provider::Ollama), "Ollama"));
    assert(s7 =~= provider_labels(a));
}

/// The model is installed exactly when some provider answered yes.
pub proof fn lemma_installed_iff_some_provider_answers_yes(a: spec_fn(Provider) -> bool)
    ensures
        any_installed(a) <==> exists|p: Provider| #[trigger] a(p),
{
    if any_installed(a) {
        if a(Provider::Ollama) {
        } else if a(Provider::Mlx) {
        } else if a(Provider::LlamaCpp) {
        } else if a(Provider::DockerModelRunner) {
        } else if a(Provider::LmStudio) {
        } else if a(Provider::LmStudioDisk) {
        } else if a(Provider::Vllm) {
        } else {
            assert(a(Provider::RamaLama));
        }
    }
    if exists|p: Provider| #[trigger] a(p) {
        let p = choose|p: Provider| #[trigger] a(p);
        match p {
            Provider::Ollama => {},
            Provider::Mlx => {},
            Provider::LlamaCpp => {},
            Provider::DockerModelRunner => {},
            Provider::LmStudio => {},
            Provider::LmStudioDisk => {},
            Provider::Vllm => {},
            Provider::RamaLama => {},
        }
    }
}

} // verus!
