//! Runtime configuration of the director and the capability catalog built
//! from it.
use vstd::prelude::*;

use crate::director::model::manifest_types::{tier_text, RepoManifest};
use crate::director::model::spine_types::{SchemaSpine, InvariantSpec, MetricSpec, NumericRange, Phase};
use crate::text::{append_new, extend_unique, views};

verus! {

/// Execution context that adjusts validation strictness.
#[derive(Debug, Clone, Copy, PartialEq, Eq, Structural)]
pub enum ContextMode {
    Local,
    CI,
    EditorPlugin,
}

/// Runtime configuration: the constellation root, its manifests and the
/// accepted versions.
#[derive(Debug, Clone)]
pub struct Config {
    root: String,
    manifests: Vec<RepoManifest>,
    context_mode: ContextMode,
    spine_version: String,
    envelope_versions: Vec<String>,
    output_dir: Option<String>,
}

impl Config {
    pub closed spec fn spec_root(&self) -> Seq<char> {
        self.root@
    }

    pub closed spec fn spec_manifests(&self) -> Seq<RepoManifest> {
        self.manifests@
    }

    pub closed spec fn spec_context_mode(&self) -> ContextMode {
        self.context_mode
    }

    pub closed spec fn spec_spine_version(&self) -> Seq<char> {
        self.spine_version@
    }

    pub closed spec fn spec_envelope_versions(&self) -> Seq<Seq<char>> {
        views(self.envelope_versions@)
    }

    pub closed spec fn spec_output_dir(&self) -> Option<Seq<char>> {
        match self.output_dir {
            Some(d) => Some(d@),
            None => None,
        }
    }

    /// A configuration from detected parts, without an output directory.
    pub fn new(
        root: String,
        manifests: Vec<RepoManifest>,
        context_mode: ContextMode,
        spine_version: String,
        envelope_versions: Vec<String>,
    ) -> (r: Self)
        ensures
            r.spec_root() == root@,
            r.spec_manifests() == manifests@,
            r.spec_context_mode() == context_mode,
            r.spec_spine_version() == spine_version@,
            r.spec_envelope_versions() == views(envelope_versions@),
            r.spec_output_dir() is None,
    {
        Config { root, manifests, context_mode, spine_version, envelope_versions, output_dir: None }
    }

    /// The constellation root.
    pub fn root(&self) -> (r: &str)
        ensures
            r@ == self.spec_root(),
    {
        self.root.as_str()
    }

    /// The loaded manifests.
    pub fn manifests(&self) -> (r: &[RepoManifest])
        ensures
            r@ == self.spec_manifests(),
    {
        self.manifests.as_slice()
    }

    /// The context mode.
    pub fn context_mode(&self) -> (r: ContextMode)
        ensures
            r == self.spec_context_mode(),
    {
        self.context_mode
    }

    /// The spine version in use.
    pub fn spine_version(&self) -> (r: &str)
        ensures
            r@ == self.spec_spine_version(),
    {
        self.spine_version.as_str()
    }

    /// The accepted envelope versions.
    pub fn envelope_versions(&self) -> (r: &[String])
        ensures
            views(r@) == self.spec_envelope_versions(),
    {
        self.envelope_versions.as_slice()
    }

    /// The output directory, if one was set.
    pub fn output_dir(&self) -> (r: Option<&str>)
        ensures
            match r {
                Some(d) => self.spec_output_dir() == Some(d@),
                None => self.spec_output_dir() is None,
            },
    {
        match &self.output_dir {
            Some(d) => Some(d.as_str()),
            None => None,
        }
    }

    /// The same configuration with `dir` as output directory.
    pub fn with_output_dir(self, dir: String) -> (r: Self)
        ensures
            r.spec_root() == self.spec_root(),
            r.spec_manifests() == self.spec_manifests(),
            r.spec_context_mode() == self.spec_context_mode(),
            r.spec_spine_version() == self.spec_spine_version(),
            r.spec_envelope_versions() == self.spec_envelope_versions(),
            r.spec_output_dir() == Some(dir@),
    {
        let mut c = self;
        c.output_dir = Some(dir);
        c
    }
}

/// The context mode selected by the `HPC_CONTEXT_MODE` setting.
pub open spec fn context_mode_for(setting: Option<Seq<char>>) -> ContextMode {
    match setting {
        Some(s) => if s == "ci"@ || s == "CI"@ {
            ContextMode::CI
        } else if s == "editor"@ || s == "EDITOR"@ {
            ContextMode::EditorPlugin
        } else {
            ContextMode::Local
        },
        None => ContextMode::Local,
    }
}

/// The context mode selected by the `HPC_CONTEXT_MODE` setting.
pub fn context_mode_from_setting(setting: Option<&str>) -> (r: ContextMode)
    ensures
        r == context_mode_for(match setting {
            Some(s) => Some(s@),
            None => None,
        }),
{
    match setting {
        Some(s) => {
            if crate::text::str_eq(s, "ci") || crate::text::str_eq(s, "CI") {
                ContextMode::CI
            } else if crate::text::str_eq(s, "editor") || crate::text::str_eq(s, "EDITOR") {
                ContextMode::EditorPlugin
            } else {
                ContextMode::Local
            }
        },
        None => ContextMode::Local,
    }
}

/// Summary of one repository for discovery.
#[derive(Debug, Clone)]
pub struct RepoSummary {
    pub name: String,
    pub tier: String,
    pub path: String,
}

/// Summary of one invariant; bounds are binary64 bit patterns.
#[derive(Debug, Clone)]
pub struct InvariantSummary {
    pub name: String,
    pub description: String,
    pub min: Option<u64>,
    pub max: Option<u64>,
}

/// Summary of one metric; bounds are binary64 bit patterns.
#[derive(Debug, Clone)]
pub struct MetricSummary {
    pub name: String,
    pub description: String,
    pub target_min: Option<u64>,
    pub target_max: Option<u64>,
}

/// Summary of one phase.
#[derive(Debug, Clone)]
pub struct PhaseSummary {
    pub id: u8,
    pub name: String,
    pub description: String,
}

/// What this director instance can see in the current environment.
#[derive(Debug, Clone)]
pub struct CapabilityCatalog {
    pub spine_version: Option<String>,
    pub available_object_kinds: Vec<String>,
    pub available_repos: Vec<RepoSummary>,
    pub invariants: Vec<InvariantSummary>,
    pub metrics: Vec<MetricSummary>,
    pub phases: Vec<PhaseSummary>,
}

/// All object kinds of the spine's families, without repeats, in order of
/// first appearance.
pub open spec fn spine_object_kinds(families: Seq<crate::director::model::spine_types::ContractFamily>) -> Seq<Seq<char>>
    decreases families.len(),
{
    if families.len() == 0 {
        seq![]
    } else {
        append_new(spine_object_kinds(families.drop_last()), views(families.last().kinds@))
    }
}

/// The object kinds of a spine, without repeats.
pub fn object_kinds_of(spine: &SchemaSpine) -> (r: Vec<String>)
    ensures
        views(r@) == spine_object_kinds(spine.contract_families@),
{
    let fams = &spine.contract_families;
    let mut r: Vec<String> = Vec::new();
    let mut i: usize = 0;
    while i < fams.len()
        invariant
            i <= fams.len(),
            fams@ == spine.contract_families@,
            views(r@) == spine_object_kinds(fams@.take(i as int)),
        decreases fams.len() - i,
    {
        proof {
            assert(fams@.take(i + 1).drop_last() =~= fams@.take(i as int));
        }
        extend_unique(&mut r, &fams[i].kinds);
        i = i + 1;
    }
    proof {
        assert(fams@.take(fams.len() as int) =~= fams@);
    }
    r
}

/// `s` summarizes manifest `m` with repository path `path`.
pub open spec fn summarizes_repo(s: RepoSummary, m: RepoManifest, path: Option<String>) -> bool {
    &&& s.name@ == m.repo_name@
    &&& s.tier@ == tier_text(m.tier)
    &&& s.path@ == match path {
        Some(p) => p@,
        None => "."@,
    }
}

/// One summary per manifest; `paths[i]` is where manifest `i`'s repository
/// was found under the root, if it exists.
pub fn repo_summaries(manifests: &[RepoManifest], paths: &[Option<String>]) -> (r: Vec<RepoSummary>)
    requires
        paths@.len() == manifests@.len(),
    ensures
        r@.len() == manifests@.len(),
        forall|i: int| 0 <= i < manifests@.len() ==> summarizes_repo(#[trigger] r@[i], manifests@[i], paths@[i]),
{
    let mut r: Vec<RepoSummary> = Vec::new();
    let mut i: usize = 0;
    while i < manifests.len()
        invariant
            i <= manifests@.len(),
            paths@.len() == manifests@.len(),
            r@.len() == i,
            forall|k: int| 0 <= k < i ==> summarizes_repo(#[trigger] r@[k], manifests@[k], paths@[k]),
        decreases manifests@.len() - i,
    {
        let m = &manifests[i];
        let path = match &paths[i] {
            Some(p) => p.clone(),
            None => String::from_str("."),
        };
        r.push(RepoSummary { name: m.repo_name.clone(), tier: String::from_str(m.tier.as_str()), path });
        i = i + 1;
    }
    r
}

/// `s` summarizes invariant entry `e`.
pub open spec fn summarizes_invariant(s: InvariantSummary, e: (String, InvariantSpec)) -> bool {
    &&& s.name@ == e.1.name@
    &&& s.description@ == e.1.description@
    &&& s.min == Some(e.1.canonical_range.min)
    &&& s.max == Some(e.1.canonical_range.max)
}

/// `s` summarizes metric entry `e`.
pub open spec fn summarizes_metric(s: MetricSummary, e: (String, MetricSpec)) -> bool {
    &&& s.name@ == e.1.name@
    &&& s.description@ == e.1.description@
    &&& s.target_min == Some(e.1.target_band.min)
    &&& s.target_max == Some(e.1.target_band.max)
}

/// `s` summarizes phase `p`.
pub open spec fn summarizes_phase(s: PhaseSummary, p: Phase) -> bool {
    &&& s.id == crate::director::spine::phase_id(p)
    &&& s.name@ == crate::director::phases::phase_debug(p)
    &&& s.description@ == crate::director::spine::phase_description(p)
}

/// One summary per phase, in pipeline order.
pub fn phase_summaries() -> (r: Vec<PhaseSummary>)
    ensures
        r@.len() == 5,
        forall|i: int| 0 <= i < 5 ==> summarizes_phase(#[trigger] r@[i], crate::director::spine::all_phases()[i]),
{
    let mut r: Vec<PhaseSummary> = Vec::new();
    let phases = [Phase::Schema0, Phase::Registry1, Phase::Bundles2, Phase::LuaPolicy3, Phase::Adapters4];
    let mut i: usize = 0;
    while i < 5
        invariant
            i <= 5,
            r@.len() == i,
            phases@ == crate::director::spine::all_phases(),
            forall|k: int| 0 <= k < i ==> summarizes_phase(#[trigger] r@[k], crate::director::spine::all_phases()[k]),
        decreases 5 - i,
    {
        let p = phases[i];
        r.push(PhaseSummary { id: p.id(), name: String::from_str(p.name()), description: String::from_str(p.description()) });
        i = i + 1;
    }
    r
}

impl Config {
    /// The capability catalog of this configuration and `spine`; `repo_paths[i]`
    /// is where manifest `i`'s repository was found under the root, if it exists.
    pub fn catalog_with_spine(&self, spine: &SchemaSpine, repo_paths: &[Option<String>]) -> (r: CapabilityCatalog)
        requires
            repo_paths@.len() == self.spec_manifests().len(),
        ensures
            r.spine_version matches Some(v) && v@ == spine.version@,
            views(r.available_object_kinds@) == spine_object_kinds(spine.contract_families@),
            r.available_repos@.len() == self.spec_manifests().len(),
            forall|i: int| 0 <= i < r.available_repos@.len() ==> summarizes_repo(#[trigger] r.available_repos@[i], self.spec_manifests()[i], repo_paths@[i]),
            r.invariants@.len() == spine.invariants@.len(),
            forall|i: int| 0 <= i < r.invariants@.len() ==> summarizes_invariant(#[trigger] r.invariants@[i], spine.invariants@[i]),
            r.metrics@.len() == spine.metrics@.len(),
            forall|i: int| 0 <= i < r.metrics@.len() ==> summarizes_metric(#[trigger] r.metrics@[i], spine.metrics@[i]),
            r.phases@.len() == 5,
            forall|i: int| 0 <= i < 5 ==> summarizes_phase(#[trigger] r.phases@[i], crate::director::spine::all_phases()[i]),
    {
        let mut invariants: Vec<InvariantSummary> = Vec::new();
        let mut i: usize = 0;
        while i < spine.invariants.len()
            invariant
                i <= spine.invariants.len(),
                invariants@.len() == i,
                forall|k: int| 0 <= k < i ==> summarizes_invariant(#[trigger] invariants@[k], spine.invariants@[k]),
            decreases spine.invariants.len() - i,
        {
            let inv = &spine.invariants[i].1;
            invariants.push(InvariantSummary {
                name: inv.name.clone(),
                description: inv.description.clone(),
                min: Some(inv.canonical_range.min),
                max: Some(inv.canonical_range.max),
            });
            i = i + 1;
        }
        let mut metrics: Vec<MetricSummary> = Vec::new();
        let mut i: usize = 0;
        while i < spine.metrics.len()
            invariant
                i <= spine.metrics.len(),
                metrics@.len() == i,
                forall|k: int| 0 <= k < i ==> summarizes_metric(#[trigger] metrics@[k], spine.metrics@[k]),
            decreases spine.metrics.len() - i,
        {
            let m = &spine.metrics[i].1;
            metrics.push(MetricSummary {
                name: m.name.clone(),
                description: m.description.clone(),
                target_min: Some(m.target_band.min),
                target_max: Some(m.target_band.max),
            });
            i = i + 1;
        }
        CapabilityCatalog {
            spine_version: Some(spine.version.clone()),
            available_object_kinds: object_kinds_of(spine),
            available_repos: repo_summaries(self.manifests.as_slice(), repo_paths),
            invariants,
            metrics,
            phases: phase_summaries(),
        }
    }
}

/// Summary of the detected constellation environment.
#[derive(Debug, Clone)]
pub struct EnvironmentSummary {
    pub root: String,
    pub spine_version: String,
    pub context_mode: ContextMode,
    pub repos: Vec<RepoSummary>,
    pub object_kinds: Vec<String>,
}

impl EnvironmentSummary {
    /// The environment summary of `config` and `spine`; `repo_paths[i]` is
    /// where manifest `i`'s repository was found under the root, if it exists.
    pub fn from_config_and_spine(config: &Config, spine: &SchemaSpine, repo_paths: &[Option<String>]) -> (r: Self)
        requires
            repo_paths@.len() == config.spec_manifests().len(),
        ensures
            r.root@ == config.spec_root(),
            r.spine_version@ == config.spec_spine_version(),
            r.context_mode == config.spec_context_mode(),
            r.repos@.len() == config.spec_manifests().len(),
            forall|i: int| 0 <= i < r.repos@.len() ==> summarizes_repo(#[trigger] r.repos@[i], config.spec_manifests()[i], repo_paths@[i]),
            views(r.object_kinds@) == spine_object_kinds(spine.contract_families@),
    {
        EnvironmentSummary {
            root: String::from_str(config.root()),
            spine_version: String::from_str(config.spine_version()),
            context_mode: config.context_mode(),
            repos: repo_summaries(config.manifests(), repo_paths),
            object_kinds: object_kinds_of(spine),
        }
    }
}


/// The catalog law: the object kinds a catalog offers are the kinds of the
/// spine's families, each once; its phases are the five phases with ids 0
/// to 4 and names `Schema0` to `Adapters4`.
pub proof fn lemma_catalog_contents(families: Seq<crate::director::model::spine_types::ContractFamily>, kind: Seq<char>)
    ensures
        spine_object_kinds(families).no_duplicates(),
        spine_object_kinds(families).contains(kind) <==> exists|i: int| 0 <= i < families.len()
            && views((#[trigger] families[i]).kinds@).contains(kind),
        forall|i: int| 0 <= i < 5 ==> crate::director::spine::phase_id(#[trigger] crate::director::spine::all_phases()[i]) == i,
        forall|i: int| 0 <= i < 5 ==> crate::director::phases::phase_debug(#[trigger] crate::director::spine::all_phases()[i])
            == seq!["Schema0"@, "Registry1"@, "Bundles2"@, "LuaPolicy3"@, "Adapters4"@][i],
    decreases families.len(),
{
    if families.len() > 0 {
        let init = families.drop_last();
        let l = families.last();
        lemma_catalog_contents(init, kind);
        crate::text::lemma_append_new_no_duplicates(spine_object_kinds(init), views(l.kinds@));
        crate::text::lemma_append_new_contains(spine_object_kinds(init), views(l.kinds@), kind);
        assert(families[families.len() - 1] == l);
        if exists|i: int| 0 <= i < families.len() && views((#[trigger] families[i]).kinds@).contains(kind) {
            let i = choose|i: int| 0 <= i < families.len() && views((#[trigger] families[i]).kinds@).contains(kind);
            if i < init.len() {
                assert(init[i] == families[i]);
            }
        }
        if exists|i: int| 0 <= i < init.len() && views((#[trigger] init[i]).kinds@).contains(kind) {
            let i = choose|i: int| 0 <= i < init.len() && views((#[trigger] init[i]).kinds@).contains(kind);
            assert(families[i] == init[i]);
        }
    }
    let names = seq!["Schema0"@, "Registry1"@, "Bundles2"@, "LuaPolicy3"@, "Adapters4"@];
    assert(crate::director::phases::phase_debug(crate::director::spine::all_phases()[0]) == names[0]);
    assert(crate::director::phases::phase_debug(crate::director::spine::all_phases()[1]) == names[1]);
    assert(crate::director::phases::phase_debug(crate::director::spine::all_phases()[2]) == names[2]);
    assert(crate::director::phases::phase_debug(crate::director::spine::all_phases()[3]) == names[3]);
    assert(crate::director::phases::phase_debug(crate::director::spine::all_phases()[4]) == names[4]);
}

} // verus!
