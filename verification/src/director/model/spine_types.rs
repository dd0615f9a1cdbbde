//! Typed representation of the schema spine index: invariants, metrics,
//! contract families and safe default bands.
//!
//! Numeric bounds are carried as IEEE-754 binary64 bit patterns; the
//! library only stores and forwards them.
use vstd::prelude::*;

use crate::text::{append_new, contains_string, extend_unique, views};

verus! {

/// Constellation tier classification used by the spine.
#[derive(Debug, Clone, Copy, PartialEq, Eq, Hash, Structural)]
pub enum Tier {
    T1,
    T2,
    T3,
}

/// Authoring phase in the pipeline.
#[derive(Debug, Clone, Copy, PartialEq, Eq, Hash, Structural)]
pub enum Phase {
    Schema0,
    Registry1,
    Bundles2,
    LuaPolicy3,
    Adapters4,
}

/// Numeric range; both bounds are binary64 bit patterns.
#[derive(Debug, Clone, Copy, PartialEq, Eq, Structural)]
pub struct NumericRange {
    pub min: u64,
    pub max: u64,
}

/// Drift mode for invariants.
#[derive(Debug, Clone, Copy, PartialEq, Eq, Structural)]
pub enum DriftMode {
    Static,
    SlowlyVarying,
    PlayerReactive,
    Derived,
}

/// Definition of a single invariant.
#[derive(Debug, Clone)]
pub struct InvariantSpec {
    pub name: String,
    pub canonical_range: NumericRange,
    /// Tier-specific overrides, one entry per tier.
    pub tier_overrides: Vec<(Tier, NumericRange)>,
    pub drift_mode: DriftMode,
    pub compatible_with: Vec<String>,
    pub description: String,
    pub required_by: Vec<String>,
}

/// Adjustment to metric targets per tier; deltas are binary64 bit patterns.
#[derive(Debug, Clone, Copy, PartialEq, Eq, Structural)]
pub struct MetricAdjustment {
    pub min_delta: Option<u64>,
    pub max_delta: Option<u64>,
}

/// Definition of an entertainment metric.
#[derive(Debug, Clone)]
pub struct MetricSpec {
    pub name: String,
    pub target_band: NumericRange,
    /// Tier-specific target adjustments, one entry per tier.
    pub tier_adjustments: Vec<(Tier, MetricAdjustment)>,
    pub telemetry_hook: Option<String>,
    pub description: String,
    pub required_by: Vec<String>,
}

/// Tier restriction for one object kind of a contract family.
#[derive(Debug, Clone)]
pub struct TierRestriction {
    pub allowed: bool,
    pub notes: Option<String>,
}

/// Grouping of related contract schemas.
#[derive(Debug, Clone)]
pub struct ContractFamily {
    pub name: String,
    pub kinds: Vec<String>,
    pub required_invariants: Vec<String>,
    pub optional_invariants: Vec<String>,
    pub required_metrics: Vec<String>,
    pub optional_metrics: Vec<String>,
    pub allowed_phases: Vec<Phase>,
    /// Tier restrictions keyed by object kind.
    pub tier_restrictions: Vec<(String, TierRestriction)>,
}

/// Effect type of an interaction rule.
#[derive(Debug, Clone, Copy, PartialEq, Eq, Structural)]
pub enum EffectType {
    Amplify,
    Suppress,
    Gate,
}

/// Condition for applying an interaction rule; thresholds are binary64 bit patterns.
#[derive(Debug, Clone)]
pub struct InteractionCondition {
    pub source_threshold: Option<u64>,
    pub source_max: Option<u64>,
    pub archetypes: Vec<String>,
    pub tile_classes: Vec<String>,
}

/// Cross-metric interaction rule.
#[derive(Debug, Clone)]
pub struct InteractionRule {
    pub id: String,
    pub source_metric: String,
    pub target_metric: String,
    pub effect_type: EffectType,
    pub condition: InteractionCondition,
    pub description: String,
}

/// Conservative default bands, keyed by invariant and metric name.
#[derive(Debug)]
pub struct DefaultBands {
    pub invariants: Vec<(String, NumericRange)>,
    pub metrics: Vec<(String, NumericRange)>,
}

/// Safe default bands per tier.
#[derive(Debug, Clone)]
pub struct TierDefaultBands {
    pub by_tier: Vec<(Tier, DefaultBands)>,
}

/// Compact profile for one object kind.
#[derive(Debug, Clone)]
pub struct ObjectKindProfile {
    pub object_kind: String,
    pub required_invariants: Vec<String>,
    pub required_metrics: Vec<String>,
    pub allowed_phases: Vec<Phase>,
}

/// Root container for the schema spine index.
#[derive(Debug, Clone)]
pub struct SchemaSpine {
    pub version: String,
    pub id: String,
    pub title: String,
    pub description: String,
    /// Invariant definitions keyed by name.
    pub invariants: Vec<(String, InvariantSpec)>,
    /// Metric definitions keyed by name.
    pub metrics: Vec<(String, MetricSpec)>,
    pub contract_families: Vec<ContractFamily>,
    pub interaction_rules: Vec<InteractionRule>,
    /// Safe default bands keyed by object kind.
    pub safe_defaults: Vec<(String, TierDefaultBands)>,
}

/// The value of the first entry keyed `key`.
pub open spec fn lookup<V>(entries: Seq<(String, V)>, key: Seq<char>) -> Option<V>
    decreases entries.len(),
{
    if entries.len() == 0 {
        None
    } else if entries[0].0@ == key {
        Some(entries[0].1)
    } else {
        lookup(entries.drop_first(), key)
    }
}

/// The value of the first entry keyed by tier `key`.
pub open spec fn lookup_tier<K, V>(entries: Seq<(K, V)>, key: K) -> Option<V>
    decreases entries.len(),
{
    if entries.len() == 0 {
        None
    } else if entries[0].0 == key {
        Some(entries[0].1)
    } else {
        lookup_tier(entries.drop_first(), key)
    }
}

/// Index of the first entry keyed `key`.
pub fn find_key<V>(entries: &Vec<(String, V)>, key: &str) -> (r: Option<usize>)
    ensures
        match r {
            None => lookup(entries@, key@) is None,
            Some(i) => i < entries.len() && lookup(entries@, key@) == Some(entries@[i as int].1),
        },
{
    let mut i: usize = 0;
    assert(entries@.skip(0) =~= entries@);
    while i < entries.len()
        invariant
            i <= entries.len(),
            lookup(entries@, key@) == lookup(entries@.skip(i as int), key@),
        decreases entries.len() - i,
    {
        assert(entries@.skip(i as int).drop_first() =~= entries@.skip(i + 1));
        if crate::text::str_eq(entries[i].0.as_str(), key) {
            return Some(i);
        }
        i = i + 1;
    }
    None
}

/// Index of the first entry keyed by tier `key`.
pub fn find_tier_key<V>(entries: &Vec<(Tier, V)>, key: Tier) -> (r: Option<usize>)
    ensures
        match r {
            None => lookup_tier(entries@, key) is None,
            Some(i) => i < entries.len() && lookup_tier(entries@, key) == Some(entries@[i as int].1),
        },
{
    let mut i: usize = 0;
    assert(entries@.skip(0) =~= entries@);
    while i < entries.len()
        invariant
            i <= entries.len(),
            lookup_tier(entries@, key) == lookup_tier(entries@.skip(i as int), key),
        decreases entries.len() - i,
    {
        assert(entries@.skip(i as int).drop_first() =~= entries@.skip(i + 1));
        if entries[i].0 == key {
            return Some(i);
        }
        i = i + 1;
    }
    None
}

/// A copy of a list of named ranges.
fn clone_named_ranges(v: &Vec<(String, NumericRange)>) -> (r: Vec<(String, NumericRange)>)
    ensures
        r@ == v@,
{
    let mut r: Vec<(String, NumericRange)> = Vec::new();
    let mut i: usize = 0;
    while i < v.len()
        invariant
            i <= v.len(),
            r@ == v@.take(i as int),
        decreases v.len() - i,
    {
        r.push((v[i].0.clone(), v[i].1));
        i = i + 1;
        proof {
            assert(r@ =~= v@.take(i as int));
        }
    }
    proof {
        assert(v@.take(v.len() as int) =~= v@);
    }
    r
}

impl View for DefaultBands {
    type V = (Seq<(String, NumericRange)>, Seq<(String, NumericRange)>);

    open spec fn view(&self) -> Self::V {
        (self.invariants@, self.metrics@)
    }
}

impl Clone for DefaultBands {
    fn clone(&self) -> (r: Self)
        ensures
            r@ == self@,
    {
        DefaultBands { invariants: clone_named_ranges(&self.invariants), metrics: clone_named_ranges(&self.metrics) }
    }
}

/// Whether `family` lists object kind `kind`.
pub open spec fn family_has_kind(family: ContractFamily, kind: Seq<char>) -> bool {
    views(family.kinds@).contains(kind)
}

/// Whether any family lists `kind`.
pub open spec fn kind_known(families: Seq<ContractFamily>, kind: Seq<char>) -> bool {
    exists|i: int| 0 <= i < families.len() && family_has_kind(#[trigger] families[i], kind)
}

/// Required invariants of all families listing `kind`, without repeats, in
/// order of first appearance.
pub open spec fn profile_invariants(families: Seq<ContractFamily>, kind: Seq<char>) -> Seq<Seq<char>>
    decreases families.len(),
{
    if families.len() == 0 {
        seq![]
    } else {
        let acc = profile_invariants(families.drop_last(), kind);
        if family_has_kind(families.last(), kind) {
            append_new(acc, views(families.last().required_invariants@))
        } else {
            acc
        }
    }
}

/// Required metrics of all families listing `kind`, without repeats, in
/// order of first appearance.
pub open spec fn profile_metrics(families: Seq<ContractFamily>, kind: Seq<char>) -> Seq<Seq<char>>
    decreases families.len(),
{
    if families.len() == 0 {
        seq![]
    } else {
        let acc = profile_metrics(families.drop_last(), kind);
        if family_has_kind(families.last(), kind) {
            append_new(acc, views(families.last().required_metrics@))
        } else {
            acc
        }
    }
}

/// Allowed phases of all families listing `kind`, without repeats, in
/// order of first appearance.
pub open spec fn profile_phases(families: Seq<ContractFamily>, kind: Seq<char>) -> Seq<Phase>
    decreases families.len(),
{
    if families.len() == 0 {
        seq![]
    } else {
        let acc = profile_phases(families.drop_last(), kind);
        if family_has_kind(families.last(), kind) {
            append_new(acc, families.last().allowed_phases@)
        } else {
            acc
        }
    }
}

proof fn lemma_append_new_phase_step(acc: Seq<Phase>, items: Seq<Phase>, j: int)
    requires
        0 <= j < items.len(),
    ensures
        append_new(acc, items.take(j + 1)) == if append_new(acc, items.take(j)).contains(items[j]) {
            append_new(acc, items.take(j))
        } else {
            append_new(acc, items.take(j)).push(items[j])
        },
{
    assert(items.take(j + 1).drop_last() =~= items.take(j));
}

/// Whether `v` holds phase `p`.
fn contains_phase(v: &Vec<Phase>, p: Phase) -> (r: bool)
    ensures
        r == v@.contains(p),
{
    let mut i: usize = 0;
    while i < v.len()
        invariant
            i <= v.len(),
            forall|k: int| 0 <= k < i ==> v@[k] != p,
        decreases v.len() - i,
    {
        if v[i] == p {
            return true;
        }
        i = i + 1;
    }
    false
}

/// Appends to `acc` every phase of `items` that it does not hold yet.
fn extend_unique_phases(acc: &mut Vec<Phase>, items: &Vec<Phase>)
    ensures
        final(acc)@ == append_new(old(acc)@, items@),
{
    let ghost start = acc@;
    let mut j: usize = 0;
    while j < items.len()
        invariant
            j <= items.len(),
            acc@ == append_new(start, items@.take(j as int)),
        decreases items.len() - j,
    {
        proof {
            lemma_append_new_phase_step(start, items@, j as int);
        }
        if !contains_phase(acc, items[j]) {
            acc.push(items[j]);
        }
        j = j + 1;
    }
    proof {
        assert(items@.take(items.len() as int) =~= items@);
    }
}

impl SchemaSpine {
    /// The invariant definition registered under `name`.
    pub fn find_invariant(&self, name: &str) -> (r: Option<&InvariantSpec>)
        ensures
            match r {
                None => lookup(self.invariants@, name@) is None,
                Some(s) => lookup(self.invariants@, name@) == Some(*s),
            },
    {
        match find_key(&self.invariants, name) {
            Some(i) => Some(&self.invariants[i].1),
            None => None,
        }
    }

    /// The metric definition registered under `name`.
    pub fn find_metric(&self, name: &str) -> (r: Option<&MetricSpec>)
        ensures
            match r {
                None => lookup(self.metrics@, name@) is None,
                Some(s) => lookup(self.metrics@, name@) == Some(*s),
            },
    {
        match find_key(&self.metrics, name) {
            Some(i) => Some(&self.metrics[i].1),
            None => None,
        }
    }

    /// The combined profile of `kind` over every contract family that lists
    /// it; `None` when no family does.
    pub fn describe_object_kind(&self, kind: &str) -> (r: Option<ObjectKindProfile>)
        ensures
            r is None <==> !kind_known(self.contract_families@, kind@),
            r matches Some(p) ==> {
                &&& p.object_kind@ == kind@
                &&& views(p.required_invariants@) == profile_invariants(self.contract_families@, kind@)
                &&& views(p.required_metrics@) == profile_metrics(self.contract_families@, kind@)
                &&& p.allowed_phases@ == profile_phases(self.contract_families@, kind@)
            },
    {
        let fams = &self.contract_families;
        let mut found = false;
        let mut invs: Vec<String> = Vec::new();
        let mut mets: Vec<String> = Vec::new();
        let mut phases: Vec<Phase> = Vec::new();
        let mut i: usize = 0;
        while i < fams.len()
            invariant
                i <= fams.len(),
                found == kind_known(fams@.take(i as int), kind@),
                views(invs@) == profile_invariants(fams@.take(i as int), kind@),
                views(mets@) == profile_metrics(fams@.take(i as int), kind@),
                phases@ == profile_phases(fams@.take(i as int), kind@),
            decreases fams.len() - i,
        {
            let ghost pre = fams@.take(i as int);
            let ghost post = fams@.take(i + 1);
            proof {
                assert(post.drop_last() =~= pre);
                assert(post.last() == fams@[i as int]);
            }
            let f = &fams[i];
            if contains_string(&f.kinds, kind) {
                found = true;
                extend_unique(&mut invs, &f.required_invariants);
                extend_unique(&mut mets, &f.required_metrics);
                extend_unique_phases(&mut phases, &f.allowed_phases);
                proof {
                    assert(family_has_kind(post[i as int], kind@));
                }
            } else {
                proof {
                    assert forall|k: int| 0 <= k < post.len() implies !family_has_kind(#[trigger] post[k], kind@) || kind_known(pre, kind@) by {
                        if k < i {
                            assert(pre[k] == post[k]);
                        }
                    }
                }
            }
            proof {
                if kind_known(pre, kind@) {
                    let k = choose|k: int| 0 <= k < pre.len() && family_has_kind(#[trigger] pre[k], kind@);
                    assert(post[k] == pre[k]);
                }
            }
            i = i + 1;
        }
        proof {
            assert(fams@.take(fams.len() as int) =~= fams@);
        }
        if !found {
            return None;
        }
        Some(ObjectKindProfile {
            object_kind: String::from_str(kind),
            required_invariants: invs,
            required_metrics: mets,
            allowed_phases: phases,
        })
    }

    /// The safe default bands for `object_kind` at `tier`, if the spine
    /// declares them.
    pub fn safe_defaults_for(&self, object_kind: &str, tier: Tier) -> (r: Option<DefaultBands>)
        ensures
            match lookup(self.safe_defaults@, object_kind@) {
                None => r is None,
                Some(by) => match lookup_tier(by.by_tier@, tier) {
                    None => r is None,
                    Some(b) => r matches Some(rb) && rb@ == b@,
                },
            },
    {
        let i = find_key(&self.safe_defaults, object_kind)?;
        let by = &self.safe_defaults[i].1;
        let j = find_tier_key(&by.by_tier, tier)?;
        Some(by.by_tier[j].1.clone())
    }
}

impl ContractFamily {
    /// The family's required invariants.
    pub fn required_invariants(&self) -> (r: Vec<String>)
        ensures
            r@ == self.required_invariants@,
    {
        crate::text::clone_strings(&self.required_invariants)
    }

    /// The family's required metrics.
    pub fn required_metrics(&self) -> (r: Vec<String>)
        ensures
            r@ == self.required_metrics@,
    {
        crate::text::clone_strings(&self.required_metrics)
    }
}


/// The describe profile law: a required invariant, a required metric or an
/// allowed phase is in the combined profile of `kind` exactly when some
/// family that lists `kind` has it.
pub proof fn lemma_describe_profile_members(families: Seq<ContractFamily>, kind: Seq<char>, name: Seq<char>, phase: Phase)
    ensures
        profile_invariants(families, kind).contains(name) <==> exists|i: int| 0 <= i < families.len()
            && family_has_kind(#[trigger] families[i], kind) && views(families[i].required_invariants@).contains(name),
        profile_metrics(families, kind).contains(name) <==> exists|i: int| 0 <= i < families.len()
            && family_has_kind(#[trigger] families[i], kind) && views(families[i].required_metrics@).contains(name),
        profile_phases(families, kind).contains(phase) <==> exists|i: int| 0 <= i < families.len()
            && family_has_kind(#[trigger] families[i], kind) && families[i].allowed_phases@.contains(phase),
    decreases families.len(),
{
    if families.len() > 0 {
        let init = families.drop_last();
        let l = families.last();
        lemma_describe_profile_members(init, kind, name, phase);
        assert(families[families.len() - 1] == l);
        assert forall|i: int| 0 <= i < init.len() implies init[i] == families[i] by {}
        if family_has_kind(l, kind) {
            crate::text::lemma_append_new_contains(profile_invariants(init, kind), views(l.required_invariants@), name);
            crate::text::lemma_append_new_contains(profile_metrics(init, kind), views(l.required_metrics@), name);
            crate::text::lemma_append_new_contains(profile_phases(init, kind), l.allowed_phases@, phase);
        }
        if exists|i: int| 0 <= i < families.len() && family_has_kind(#[trigger] families[i], kind) && views(families[i].required_invariants@).contains(name) {
            let i = choose|i: int| 0 <= i < families.len() && family_has_kind(#[trigger] families[i], kind) && views(families[i].required_invariants@).contains(name);
            if i < init.len() {
                assert(family_has_kind(init[i], kind));
            }
        }
        if exists|i: int| 0 <= i < families.len() && family_has_kind(#[trigger] families[i], kind) && views(families[i].required_metrics@).contains(name) {
            let i = choose|i: int| 0 <= i < families.len() && family_has_kind(#[trigger] families[i], kind) && views(families[i].required_metrics@).contains(name);
            if i < init.len() {
                assert(family_has_kind(init[i], kind));
            }
        }
        if exists|i: int| 0 <= i < families.len() && family_has_kind(#[trigger] families[i], kind) && families[i].allowed_phases@.contains(phase) {
            let i = choose|i: int| 0 <= i < families.len() && family_has_kind(#[trigger] families[i], kind) && families[i].allowed_phases@.contains(phase);
            if i < init.len() {
                assert(family_has_kind(init[i], kind));
            }
        }
    }
}

} // verus!
