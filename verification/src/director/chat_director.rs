//! The director façade: a loaded spine and manifests, queried by AI tools.
use vstd::prelude::*;

use crate::director::config::{object_kinds_of, phase_summaries, spine_object_kinds, summarizes_invariant, summarizes_metric, summarizes_phase, CapabilityCatalog, Config, InvariantSummary, MetricSummary, RepoSummary};
use crate::director::model::manifest_types::{item_views, policy_items, tier_text, PolicyChecklist, RepoManifest};
use crate::director::model::spine_types::SchemaSpine;
use crate::director::phases::{find_manifest_named, manifest_named};
use crate::director::spine::SpineIndex;
use crate::text::views;

verus! {

/// Core façade for constellation authoring operations.
#[derive(Debug, Clone)]
pub struct ChatDirector {
    config: Config,
    spine: SpineIndex,
    manifests: Vec<RepoManifest>,
}

impl ChatDirector {
    pub closed spec fn spec_config(&self) -> Config {
        self.config
    }

    pub closed spec fn spec_spine(&self) -> SchemaSpine {
        self.spine.spec_spine()
    }

    pub closed spec fn spec_manifests(&self) -> Seq<RepoManifest> {
        self.manifests@
    }

    /// A director over a preloaded spine and manifests.
    pub fn from_spine_and_manifests(config: Config, spine: SpineIndex, manifests: Vec<RepoManifest>) -> (r: Self)
        ensures
            r.spec_config() == config,
            r.spec_spine() == spine.spec_spine(),
            r.spec_manifests() == manifests@,
    {
        ChatDirector { config, spine, manifests }
    }

    /// The configuration.
    pub fn config(&self) -> (r: &Config)
        ensures
            *r == self.spec_config(),
    {
        &self.config
    }

    /// The schema spine.
    pub fn spine_schema(&self) -> (r: &SchemaSpine)
        ensures
            *r == self.spec_spine(),
    {
        self.spine.inner()
    }

    /// The loaded repo manifests.
    pub fn repo_manifests(&self) -> (r: &[RepoManifest])
        ensures
            r@ == self.spec_manifests(),
    {
        self.manifests.as_slice()
    }

    /// The capability catalog for AI pre-flight discovery.
    pub fn capability_catalog(&self) -> (r: CapabilityCatalog)
        ensures
            r.spine_version matches Some(v) && v@ == self.spec_spine().version@,
            views(r.available_object_kinds@) == spine_object_kinds(self.spec_spine().contract_families@),
            r.available_repos@.len() == self.spec_manifests().len(),
            forall|i: int| 0 <= i < r.available_repos@.len() ==> {
                &&& (#[trigger] r.available_repos@[i]).name@ == self.spec_manifests()[i].repo_name@
                &&& r.available_repos@[i].tier@ == tier_text(self.spec_manifests()[i].tier)
                &&& r.available_repos@[i].path@.len() == 0
            },
            r.invariants@.len() == self.spec_spine().invariants@.len(),
            forall|i: int| 0 <= i < r.invariants@.len() ==> summarizes_invariant(#[trigger] r.invariants@[i], self.spec_spine().invariants@[i]),
            r.metrics@.len() == self.spec_spine().metrics@.len(),
            forall|i: int| 0 <= i < r.metrics@.len() ==> summarizes_metric(#[trigger] r.metrics@[i], self.spec_spine().metrics@[i]),
            r.phases@.len() == 5,
            forall|i: int| 0 <= i < 5 ==> summarizes_phase(#[trigger] r.phases@[i], crate::director::spine::all_phases()[i]),
    {
        let spine = self.spine.inner();
        let mut invariants: Vec<InvariantSummary> = Vec::new();
        let mut i: usize = 0;
        while i < spine.invariants.len()
            invariant
                i <= spine.invariants.len(),
                invariants@.len() == i,
                forall|k: int| 0 <= k < i ==> summarizes_invariant(#[trigger] invariants@[k], spine.invariants@[k]),
            decreases spine.invariants.len() - i,
        {
            let inv = &spine.invariants[i].1;
            invariants.push(InvariantSummary {
                name: inv.name.clone(),
                description: inv.description.clone(),
                min: Some(inv.canonical_range.min),
                max: Some(inv.canonical_range.max),
            });
            i = i + 1;
        }
        let mut metrics: Vec<MetricSummary> = Vec::new();
        let mut i: usize = 0;
        while i < spine.metrics.len()
            invariant
                i <= spine.metrics.len(),
                metrics@.len() == i,
                forall|k: int| 0 <= k < i ==> summarizes_metric(#[trigger] metrics@[k], spine.metrics@[k]),
            decreases spine.metrics.len() - i,
        {
            let m = &spine.metrics[i].1;
            metrics.push(MetricSummary {
                name: m.name.clone(),
                description: m.description.clone(),
                target_min: Some(m.target_band.min),
                target_max: Some(m.target_band.max),
            });
            i = i + 1;
        }
        let mut repos: Vec<RepoSummary> = Vec::new();
        let mut i: usize = 0;
        while i < self.manifests.len()
            invariant
                i <= self.manifests.len(),
                repos@.len() == i,
                forall|k: int| 0 <= k < i ==> {
                    &&& (#[trigger] repos@[k]).name@ == self.manifests@[k].repo_name@
                    &&& repos@[k].tier@ == tier_text(self.manifests@[k].tier)
                    &&& repos@[k].path@.len() == 0
                },
            decreases self.manifests.len() - i,
        {
            let m = &self.manifests[i];
            repos.push(RepoSummary { name: m.repo_name.clone(), tier: String::from_str(m.tier.as_str()), path: String::new() });
            i = i + 1;
        }
        CapabilityCatalog {
            spine_version: Some(String::from_str(self.spine.version())),
            available_object_kinds: object_kinds_of(spine),
            available_repos: repos,
            invariants,
            metrics,
            phases: phase_summaries(),
        }
    }

    /// The policy checklist of the first manifest named `repo_name`.
    pub fn policy_checklist_for_repo(&self, repo_name: &str) -> (r: Option<PolicyChecklist>)
        ensures
            match manifest_named(self.spec_manifests(), repo_name@) {
                None => r is None,
                Some(m) => r matches Some(c) && c.repo_name@ == repo_name@ && c.tier@ == tier_text(m.tier)
                    && item_views(c.items@) == policy_items(m),
            },
    {
        proof {
            crate::director::phases::lemma_manifest_named_has_name(self.manifests@, repo_name@);
        }
        let i = find_manifest_named(self.manifests.as_slice(), repo_name)?;
        let checklist = self.manifests[i].to_policy_checklist();
        Some(checklist)
    }
}

} // verus!
