//! Typed representation of repository manifests: tiers, policy rules,
//! authoring hints, cross-reference policy and routing rules.
use vstd::prelude::*;

use crate::director::model::spine_types::{lookup, Phase};
use crate::text::{contains_string, decimal, decimal_string, views};

verus! {

/// Tier classification shared across manifests.
#[derive(Debug, Clone, Copy, PartialEq, Eq, Hash, Structural)]
pub enum Tier {
    T1Core,
    T2Vault,
    T3Research,
}

/// The canonical text of a tier.
pub open spec fn tier_text(t: Tier) -> Seq<char> {
    match t {
        Tier::T1Core => "T1-core"@,
        Tier::T2Vault => "T2-vault"@,
        Tier::T3Research => "T3-research"@,
    }
}

/// The charter description of a tier.
pub open spec fn tier_charter(t: Tier) -> Seq<char> {
    match t {
        Tier::T1Core => "Public contract-only surfaces and orchestrator logic; no raw horror payloads."@,
        Tier::T2Vault => "Vault-style repos for styles, seeds, personas, and experimental logic."@,
        Tier::T3Research => "Research tier for BCI, neural resonance, and redacted chronicles."@,
    }
}

/// Name and charter description of a tier.
#[derive(Debug, Clone)]
pub struct TierDescription {
    pub name: String,
    pub description: String,
}

impl Tier {
    /// The canonical text of the tier (`T1-core`, `T2-vault`, `T3-research`).
    pub fn as_str(&self) -> (r: &'static str)
        ensures
            r@ == tier_text(*self),
    {
        match self {
            Tier::T1Core => "T1-core",
            Tier::T2Vault => "T2-vault",
            Tier::T3Research => "T3-research",
        }
    }

    /// The tier's name and charter description.
    pub fn describe(&self) -> (r: TierDescription)
        ensures
            r.name@ == tier_text(*self),
            r.description@ == tier_charter(*self),
    {
        let description = match self {
            Tier::T1Core => "Public contract-only surfaces and orchestrator logic; no raw horror payloads.",
            Tier::T2Vault => "Vault-style repos for styles, seeds, personas, and experimental logic.",
            Tier::T3Research => "Research tier for BCI, neural resonance, and redacted chronicles.",
        };
        TierDescription { name: String::from_str(self.as_str()), description: String::from_str(description) }
    }
}

/// AI agent role for permission gating.
#[derive(Debug, Clone, Copy, PartialEq, Eq, Hash, Structural)]
pub enum AiRole {
    Architect,
    Implementer,
    Auditor,
}

/// Policy rules for a repository.
#[derive(Debug, Clone)]
pub struct RepoRules {
    pub one_file_per_request: bool,
    pub require_deadledger_ref: bool,
    pub max_file_size_bytes: Option<u64>,
    /// Forbidden entries per tier.
    pub forbidden_fields: Vec<(Tier, Vec<String>)>,
    pub mandatory_prism_fields: Vec<String>,
    /// Run the schema validation hook after applying a file.
    pub require_schema_validation: bool,
}

impl Default for RepoRules {
    fn default() -> (r: Self)
        ensures
            !r.one_file_per_request,
            !r.require_deadledger_ref,
            r.max_file_size_bytes is None,
            r.forbidden_fields@.len() == 0,
            r.mandatory_prism_fields@.len() == 0,
            !r.require_schema_validation,
    {
        RepoRules {
            one_file_per_request: false,
            require_deadledger_ref: false,
            max_file_size_bytes: None,
            forbidden_fields: Vec::new(),
            mandatory_prism_fields: Vec::new(),
            require_schema_validation: false,
        }
    }
}

/// AI-specific authoring hints.
#[derive(Debug, Clone)]
pub struct AuthoringHints {
    pub tier_rationale: Option<String>,
    pub one_file_per_request_rationale: Option<String>,
    pub deadledger_rationale: Option<String>,
    pub cross_repo_rationale: Option<String>,
    pub default_staging_repo: Option<String>,
}

impl Default for AuthoringHints {
    fn default() -> (r: Self)
        ensures
            r.tier_rationale is None,
            r.one_file_per_request_rationale is None,
            r.deadledger_rationale is None,
            r.cross_repo_rationale is None,
            r.default_staging_repo is None,
    {
        AuthoringHints {
            tier_rationale: None,
            one_file_per_request_rationale: None,
            deadledger_rationale: None,
            cross_repo_rationale: None,
            default_staging_repo: None,
        }
    }
}

/// Tier isolation policy for cross-references.
#[derive(Debug, Clone, Copy, PartialEq, Eq, Structural)]
pub enum TierIsolation {
    /// No isolation (`none` in manifests).
    NoIsolation,
    SameOrLower,
    SameOnly,
    Strict,
}

impl Default for TierIsolation {
    fn default() -> (r: Self)
        ensures
            r == TierIsolation::SameOrLower,
    {
        TierIsolation::SameOrLower
    }
}

/// Cross-repository reference policy.
#[derive(Debug, Clone)]
pub struct CrossRefPolicy {
    pub allows_refs_to: Vec<String>,
    pub allows_refs_from: Vec<String>,
    /// Maximum DET for cross-referenced content (binary64 bit pattern).
    pub max_det_for_refs: Option<u64>,
    pub tier_isolation: TierIsolation,
}

impl Default for CrossRefPolicy {
    fn default() -> (r: Self)
        ensures
            r.allows_refs_to@.len() == 0,
            r.allows_refs_from@.len() == 0,
            r.max_det_for_refs is None,
            r.tier_isolation == TierIsolation::SameOrLower,
    {
        CrossRefPolicy {
            allows_refs_to: Vec::new(),
            allows_refs_from: Vec::new(),
            max_det_for_refs: None,
            tier_isolation: TierIsolation::default(),
        }
    }
}

/// Routing rule mapping an object kind to a path pattern and roles.
#[derive(Debug, Clone)]
pub struct TargetRule {
    pub object_kind: String,
    pub path_pattern: String,
    pub allowed_roles: Vec<AiRole>,
    pub allowed_phases: Vec<Phase>,
    pub notes: Vec<String>,
}

/// Per-repo manifest.
#[derive(Debug, Clone)]
pub struct RepoManifest {
    pub schema_version: String,
    pub repo_name: String,
    pub tier: Tier,
    pub allowed_object_kinds: Vec<String>,
    pub allowed_schemas: Vec<String>,
    /// Default target path template keyed by object kind.
    pub default_target_paths: Vec<(String, String)>,
    pub rules: RepoRules,
    pub authoring_hints: AuthoringHints,
    pub cross_ref_policy: CrossRefPolicy,
    /// Minimum RWF for production-tier acceptance (binary64 bit pattern).
    pub min_rwf_for_tier: Option<u64>,
    pub target_rules: Vec<TargetRule>,
    /// If true, object kinds not listed in `allowed_object_kinds` are denied.
    pub implicit_deny: bool,
}

/// One item of a policy checklist.
#[derive(Debug, Clone)]
pub struct PolicyChecklistItem {
    pub code: String,
    pub description: String,
}

/// The policies a repository enforces, as a checklist.
#[derive(Debug, Clone)]
pub struct PolicyChecklist {
    pub repo_name: String,
    pub tier: String,
    pub items: Vec<PolicyChecklistItem>,
}

/// The `(code, description)` views of checklist items.
pub open spec fn item_views(items: Seq<PolicyChecklistItem>) -> Seq<(Seq<char>, Seq<char>)> {
    items.map_values(|i: PolicyChecklistItem| (i.code@, i.description@))
}

impl PolicyChecklist {
    /// An empty checklist for `repo_name` at `tier`.
    pub fn new(repo_name: &str, tier: &Tier) -> (r: Self)
        ensures
            r.repo_name@ == repo_name@,
            r.tier@ == tier_text(*tier),
            r.items@.len() == 0,
    {
        PolicyChecklist {
            repo_name: String::from_str(repo_name),
            tier: String::from_str(tier.as_str()),
            items: Vec::new(),
        }
    }

    /// Appends one item.
    pub fn add_item(&mut self, code: &str, description: &str)
        ensures
            final(self).repo_name@ == old(self).repo_name@,
            final(self).tier@ == old(self).tier@,
            item_views(final(self).items@) == item_views(old(self).items@).push((code@, description@)),
    {
        let ghost before = self.items@;
        self.items.push(PolicyChecklistItem { code: String::from_str(code), description: String::from_str(description) });
        proof {
            assert(item_views(self.items@) =~= item_views(before).push((code@, description@)));
        }
    }
}

/// Whether manifest `m` accepts object kind `kind`: listed kinds always; otherwise
/// only without implicit deny and with a non-empty list.
pub open spec fn allows_kind(m: RepoManifest, kind: Seq<char>) -> bool {
    let listed = views(m.allowed_object_kinds@);
    listed.contains(kind) || (!m.implicit_deny && listed.len() > 0)
}

/// The policy items a manifest enforces, in checklist order.
pub open spec fn policy_items(m: RepoManifest) -> Seq<(Seq<char>, Seq<char>)> {
    let a = if m.rules.one_file_per_request {
        seq![("ONE_FILE_PER_REQUEST"@, "Enforce exactly one file per authoring request."@)]
    } else {
        seq![]
    };
    let b = if m.rules.require_deadledger_ref {
        seq![("DEAD_LEDGER_REF"@, "Require deadLedgerRef for historical or high-impact content."@)]
    } else {
        seq![]
    };
    let c = match m.rules.max_file_size_bytes {
        Some(n) => seq![("MAX_FILE_SIZE"@, "Maximum file size is "@ + decimal(n as nat) + " bytes."@)],
        None => seq![],
    };
    let d = if m.min_rwf_for_tier is Some {
        seq![("MIN_RWF_FOR_TIER"@, "Enforce minimum RWF score for production-tier acceptance."@)]
    } else {
        seq![]
    };
    a + b + c + d
}

/// The first target rule for `kind`.
pub open spec fn rule_for(rules: Seq<TargetRule>, kind: Seq<char>) -> Option<TargetRule>
    decreases rules.len(),
{
    if rules.len() == 0 {
        None
    } else if rules[0].object_kind@ == kind {
        Some(rules[0])
    } else {
        rule_for(rules.drop_first(), kind)
    }
}

/// The forbidden list that `rules` keeps for `tier` (first entry), if any.
pub open spec fn forbidden_for(entries: Seq<(Tier, Vec<String>)>, tier: Tier) -> Option<Seq<Seq<char>>>
    decreases entries.len(),
{
    if entries.len() == 0 {
        None
    } else if entries[0].0 == tier {
        Some(views(entries[0].1@))
    } else {
        forbidden_for(entries.drop_first(), tier)
    }
}

impl RepoManifest {
    /// Whether this manifest accepts `kind`.
    pub fn allows_object_kind(&self, kind: &str) -> (r: bool)
        ensures
            r == allows_kind(*self, kind@),
    {
        if contains_string(&self.allowed_object_kinds, kind) {
            return true;
        }
        if self.implicit_deny {
            return false;
        }
        self.allowed_object_kinds.len() > 0
    }

    /// The default path template for `kind`.
    pub fn default_path_for(&self, kind: &str) -> (r: Option<&str>)
        ensures
            match r {
                None => lookup(self.default_target_paths@, kind@) is None,
                Some(p) => lookup(self.default_target_paths@, kind@) matches Some(q) && p@ == q@,
            },
    {
        match crate::director::model::spine_types::find_key(&self.default_target_paths, kind) {
            Some(i) => Some(self.default_target_paths[i].1.as_str()),
            None => None,
        }
    }

    /// Charter rationale and suggested staging repo for tier violations.
    pub fn tier_violation_hints_for(&self) -> (r: (Option<String>, Option<String>))
        ensures
            r.0 == self.authoring_hints.tier_rationale,
            r.1 == self.authoring_hints.default_staging_repo,
    {
        (self.authoring_hints.tier_rationale.clone(), self.authoring_hints.default_staging_repo.clone())
    }

    /// The first target rule for `object_kind`.
    pub fn find_rule_for(&self, object_kind: &str) -> (r: Option<&TargetRule>)
        ensures
            match r {
                None => rule_for(self.target_rules@, object_kind@) is None,
                Some(t) => rule_for(self.target_rules@, object_kind@) == Some(*t),
            },
    {
        let rules = &self.target_rules;
        let mut i: usize = 0;
        assert(rules@.skip(0) =~= rules@);
        while i < rules.len()
            invariant
                i <= rules.len(),
                rules@ == self.target_rules@,
                rule_for(rules@, object_kind@) == rule_for(rules@.skip(i as int), object_kind@),
            decreases rules.len() - i,
        {
            assert(rules@.skip(i as int).drop_first() =~= rules@.skip(i + 1));
            assert(rules@.skip(i as int)[0] == rules@[i as int]);
            if crate::text::str_eq(rules[i].object_kind.as_str(), object_kind) {
                return Some(&rules[i]);
            }
            i = i + 1;
        }
        None
    }

    /// Whether this repo may reference content in `target_repo`.
    pub fn allows_cross_ref_to(&self, target_repo: &str) -> (r: bool)
        ensures
            r == views(self.cross_ref_policy.allows_refs_to@).contains(target_repo@),
    {
        contains_string(&self.cross_ref_policy.allows_refs_to, target_repo)
    }

    /// Whether the forbidden list of this repo's own tier names `object_kind`.
    pub fn is_raw_content_kind(&self, object_kind: &str) -> (r: bool)
        ensures
            r == (forbidden_for(self.rules.forbidden_fields@, self.tier) matches Some(l) && l.contains(object_kind@)),
    {
        let entries = &self.rules.forbidden_fields;
        let mut i: usize = 0;
        assert(entries@.skip(0) =~= entries@);
        while i < entries.len()
            invariant
                i <= entries.len(),
                entries@ == self.rules.forbidden_fields@,
                forbidden_for(entries@, self.tier) == forbidden_for(entries@.skip(i as int), self.tier),
            decreases entries.len() - i,
        {
            assert(entries@.skip(i as int).drop_first() =~= entries@.skip(i + 1));
            assert(entries@.skip(i as int)[0] == entries@[i as int]);
            if entries[i].0 == self.tier {
                return contains_string(&entries[i].1, object_kind);
            }
            i = i + 1;
        }
        false
    }

    /// The checklist of policies this repo enforces.
    pub fn to_policy_checklist(&self) -> (r: PolicyChecklist)
        ensures
            r.repo_name@ == self.repo_name@,
            r.tier@ == tier_text(self.tier),
            item_views(r.items@) == policy_items(*self),
    {
        let mut checklist = PolicyChecklist::new(self.repo_name.as_str(), &self.tier);
        if self.rules.one_file_per_request {
            checklist.add_item("ONE_FILE_PER_REQUEST", "Enforce exactly one file per authoring request.");
        }
        if self.rules.require_deadledger_ref {
            checklist.add_item("DEAD_LEDGER_REF", "Require deadLedgerRef for historical or high-impact content.");
        }
        if let Some(max_bytes) = self.rules.max_file_size_bytes {
            let mut text = String::from_str("Maximum file size is ");
            let n = decimal_string(max_bytes);
            text.append(n.as_str());
            text.append(" bytes.");
            checklist.add_item("MAX_FILE_SIZE", text.as_str());
        }
        if self.min_rwf_for_tier.is_some() {
            checklist.add_item("MIN_RWF_FOR_TIER", "Enforce minimum RWF score for production-tier acceptance.");
        }
        proof {
            assert(item_views(checklist.items@) =~= policy_items(*self));
        }
        checklist
    }
}

} // verus!
