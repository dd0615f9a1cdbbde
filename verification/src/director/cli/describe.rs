//! The `describe` subcommand: the capability profile of object kinds, for AI
//! orchestrators to discover what they may author where.
use vstd::prelude::*;

use crate::director::chat_director::ChatDirector;
use crate::director::errors::Error;
use crate::director::model::manifest_types::{allows_kind, RepoManifest, Tier};
use crate::director::model::spine_types::{
    family_has_kind, lookup, ContractFamily, InvariantSpec, MetricAdjustment, MetricSpec, NumericRange, Phase, SchemaSpine,
};
use crate::text::{contains_string, replace_id, replace_id_marker, str_eq, views};

verus! {

/// Restriction of an object kind in the repos of one tier.
#[derive(Debug, Clone)]
pub struct TierRestriction {
    pub allowed: bool,
    pub notes: Option<String>,
    /// Minimum RWF (binary64 bit pattern).
    pub min_rwf: Option<u64>,
}

/// Profile of a required invariant.
#[derive(Debug, Clone)]
pub struct InvariantProfile {
    pub required: bool,
    pub range: NumericRange,
    pub tier_overrides: Vec<(crate::director::model::spine_types::Tier, NumericRange)>,
    pub description: String,
}

/// Profile of a required metric.
#[derive(Debug, Clone)]
pub struct MetricProfile {
    pub required: bool,
    pub target_band: NumericRange,
    pub tier_adjustments: Vec<(crate::director::model::spine_types::Tier, MetricAdjustment)>,
    pub description: String,
}

/// Capability profile of one object kind.
#[derive(Debug, Clone)]
pub struct ObjectKindProfile {
    pub object_kind: String,
    pub family: String,
    pub allowed_phases: Vec<Phase>,
    /// One restriction per tier, from the last manifest of that tier.
    pub tier_restrictions: Vec<(Tier, TierRestriction)>,
    /// Required invariants that the spine defines, by name.
    pub required_invariants: Vec<(String, InvariantProfile)>,
    /// Required metrics that the spine defines, by name.
    pub required_metrics: Vec<(String, MetricProfile)>,
    pub suggested_archetypes: Vec<String>,
    /// Example target path per repo name.
    pub example_paths: Vec<(String, String)>,
}

/// The output of `describe`.
#[derive(Debug, Clone)]
pub enum DescribeOutput {
    /// The profile of the requested object kind.
    Single(ObjectKindProfile),
    /// The profiles of every object kind of the spine.
    All(Vec<ObjectKindProfile>),
}

/// The first family that lists `kind`.
pub open spec fn family_of(fams: Seq<ContractFamily>, kind: Seq<char>) -> Option<ContractFamily>
    decreases fams.len(),
{
    if fams.len() == 0 {
        None
    } else if family_has_kind(fams[0], kind) {
        Some(fams[0])
    } else {
        family_of(fams.drop_first(), kind)
    }
}

/// Abstract value of a tier restriction: allowed, notes, minimum RWF.
pub type RestrictionView = (bool, Option<Seq<char>>, Option<u64>);

/// The restriction that manifest `m` puts on `kind`.
pub open spec fn restriction_of(m: RepoManifest, kind: Seq<char>) -> RestrictionView {
    let allowed = allows_kind(m, kind);
    (allowed, if !allowed { Some("Repo '"@ + m.repo_name@ + "' does not accept "@ + kind) } else { None }, m.min_rwf_for_tier)
}

/// Sets `key` to `value`: replaces the first entry with that key, or appends one.
pub open spec fn assoc_set<K, V>(m: Seq<(K, V)>, key: K, value: V) -> Seq<(K, V)>
    decreases m.len(),
{
    if m.len() == 0 {
        seq![(key, value)]
    } else if m[0].0 == key {
        m.update(0, (key, value))
    } else {
        seq![m[0]] + assoc_set(m.drop_first(), key, value)
    }
}

/// The tier restrictions of `kind` over the manifests, one per tier.
pub open spec fn restrictions(ms: Seq<RepoManifest>, kind: Seq<char>) -> Seq<(Tier, RestrictionView)>
    decreases ms.len(),
{
    if ms.len() == 0 {
        seq![]
    } else {
        assoc_set(restrictions(ms.drop_last(), kind), ms.last().tier, restriction_of(ms.last(), kind))
    }
}

/// The example path of each repo that accepts `kind` and has a default path
/// for it.
pub open spec fn example_paths(ms: Seq<RepoManifest>, kind: Seq<char>) -> Seq<(Seq<char>, Seq<char>)>
    decreases ms.len(),
{
    if ms.len() == 0 {
        seq![]
    } else {
        let rest = example_paths(ms.drop_last(), kind);
        let m = ms.last();
        if allows_kind(m, kind) {
            match lookup(m.default_target_paths@, kind) {
                Some(t) => assoc_set(rest, m.repo_name@, replace_id(t@, "example_id"@)),
                None => rest,
            }
        } else {
            rest
        }
    }
}

/// The required names that the spine defines, without repeats, in order.
pub open spec fn defined_names<V>(names: Seq<String>, defs: Seq<(String, V)>) -> Seq<Seq<char>>
    decreases names.len(),
{
    if names.len() == 0 {
        seq![]
    } else {
        let rest = defined_names(names.drop_last(), defs);
        let n = names.last()@;
        if lookup(defs, n) is Some && !rest.contains(n) {
            rest.push(n)
        } else {
            rest
        }
    }
}

/// `p` profiles invariant `spec`.
pub open spec fn profiles_invariant(p: InvariantProfile, spec: InvariantSpec) -> bool {
    &&& p.required
    &&& p.range == spec.canonical_range
    &&& p.tier_overrides@ == spec.tier_overrides@
    &&& p.description@ == spec.description@
}

/// `p` profiles metric `spec`.
pub open spec fn profiles_metric(p: MetricProfile, spec: MetricSpec) -> bool {
    &&& p.required
    &&& p.target_band == spec.target_band
    &&& p.tier_adjustments@ == spec.tier_adjustments@
    &&& p.description@ == spec.description@
}

/// The views of restriction entries.
pub open spec fn restriction_views(v: Seq<(Tier, TierRestriction)>) -> Seq<(Tier, RestrictionView)> {
    v.map_values(|e: (Tier, TierRestriction)| (e.0, (e.1.allowed, crate::director::model::opt_view(e.1.notes), e.1.min_rwf)))
}

/// The views of string pairs.
pub open spec fn string_pairs(v: Seq<(String, String)>) -> Seq<(Seq<char>, Seq<char>)> {
    v.map_values(|e: (String, String)| (e.0@, e.1@))
}

/// `p` is the profile of `kind` over `spine` and `ms`.
pub open spec fn profile_of(p: ObjectKindProfile, kind: Seq<char>, spine: SchemaSpine, ms: Seq<RepoManifest>) -> bool {
    match family_of(spine.contract_families@, kind) {
        None => false,
        Some(f) => {
            &&& p.object_kind@ == kind
            &&& p.family@ == f.name@
            &&& p.allowed_phases@ == f.allowed_phases@
            &&& restriction_views(p.tier_restrictions@) == restrictions(ms, kind)
            &&& p.required_invariants@.map_values(|e: (String, InvariantProfile)| e.0@) == defined_names(
                f.required_invariants@,
                spine.invariants@,
            )
            &&& forall|i: int| 0 <= i < p.required_invariants@.len() ==> (lookup(spine.invariants@, (#[trigger] p.required_invariants@[i]).0@) matches Some(s)
                && profiles_invariant(p.required_invariants@[i].1, s))
            &&& p.required_metrics@.map_values(|e: (String, MetricProfile)| e.0@) == defined_names(
                f.required_metrics@,
                spine.metrics@,
            )
            &&& forall|i: int| 0 <= i < p.required_metrics@.len() ==> (lookup(spine.metrics@, (#[trigger] p.required_metrics@[i]).0@) matches Some(s)
                && profiles_metric(p.required_metrics@[i].1, s))
            &&& p.suggested_archetypes@.len() == 0
            &&& string_pairs(p.example_paths@) == example_paths(ms, kind)
        },
    }
}


fn find_family(fams: &Vec<ContractFamily>, kind: &str) -> (r: Option<usize>)
    ensures
        match r {
            None => family_of(fams@, kind@) is None,
            Some(i) => i < fams@.len() && family_of(fams@, kind@) == Some(fams@[i as int]),
        },
{
    let mut i: usize = 0;
    assert(fams@.skip(0) =~= fams@);
    while i < fams.len()
        invariant
            i <= fams@.len(),
            family_of(fams@, kind@) == family_of(fams@.skip(i as int), kind@),
        decreases fams@.len() - i,
    {
        assert(fams@.skip(i as int).drop_first() =~= fams@.skip(i + 1));
        assert(fams@.skip(i as int)[0] == fams@[i as int]);
        if contains_string(&fams[i].kinds, kind) {
            return Some(i);
        }
        i = i + 1;
    }
    None
}

proof fn lemma_assoc_set_len<K, V>(m: Seq<(K, V)>, key: K, value: V)
    ensures
        assoc_set(m, key, value).len() >= 1,
    decreases m.len(),
{
    if m.len() > 0 && m[0].0 != key {
        lemma_assoc_set_len(m.drop_first(), key, value);
    }
}

/// Sets the restriction of `tier` in `v`.
fn set_restriction(v: &mut Vec<(Tier, TierRestriction)>, tier: Tier, r: TierRestriction)
    ensures
        restriction_views(final(v)@) == assoc_set(restriction_views(old(v)@), tier, (r.allowed, crate::director::model::opt_view(r.notes), r.min_rwf)),
{
    let ghost rv = (r.allowed, crate::director::model::opt_view(r.notes), r.min_rwf);
    let ghost old_views = restriction_views(v@);
    let mut i: usize = 0;
    proof {
        assert(old_views.skip(0) =~= old_views);
        assert(old_views.take(0) + assoc_set(old_views, tier, rv) =~= assoc_set(old_views, tier, rv));
    }
    while i < v.len()
        invariant
            i <= v@.len(),
            v@.len() == old_views.len(),
            restriction_views(v@) == old_views,
            old_views == restriction_views(old(v)@),
            rv == (r.allowed, crate::director::model::opt_view(r.notes), r.min_rwf),
            assoc_set(old_views, tier, rv) == old_views.take(i as int) + assoc_set(old_views.skip(i as int), tier, rv),
            forall|k: int| 0 <= k < i ==> old_views[k].0 != tier,
        decreases v@.len() - i,
    {
        assert(old_views.skip(i as int)[0] == old_views[i as int]);
        if v[i].0 == tier {
            let ghost before = v@;
            v.set(i, (tier, r));
            proof {
                assert(v@ == before.update(i as int, (tier, r)));
                assert(v@[i as int] == (tier, r));
                assert(restriction_views(v@)[i as int] == (tier, rv));
                assert forall|k: int| 0 <= k < v@.len() && k != i implies #[trigger] restriction_views(v@)[k] == old_views[k] by {
                    assert(v@[k] == before[k]);
                    assert(restriction_views(before)[k] == old_views[k]);
                }
                assert(restriction_views(v@) =~= old_views.update(i as int, (tier, rv)));
                assert(old_views.take(i as int) + old_views.skip(i as int).update(0, (tier, rv)) =~= old_views.update(i as int, (tier, rv)));
                assert(old_views[i as int].0 == tier);
                assert(old_views.skip(i as int)[0].0 == tier);
                assert(assoc_set(old_views.skip(i as int), tier, rv) == old_views.skip(i as int).update(0, (tier, rv)));
            }
            return;
        }
        proof {
            assert(old_views.skip(i as int).drop_first() =~= old_views.skip(i + 1));
            assert(old_views.take(i as int) + (seq![old_views[i as int]] + assoc_set(old_views.skip(i + 1), tier, rv))
                =~= old_views.take(i + 1) + assoc_set(old_views.skip(i + 1), tier, rv));
        }
        i = i + 1;
    }
    let ghost before = v@;
    v.push((tier, r));
    proof {
        assert(old_views.skip(i as int) =~= Seq::<(Tier, RestrictionView)>::empty());
        assert(old_views.take(i as int) =~= old_views);
        assert(restriction_views(v@) =~= old_views.push((tier, rv)));
        assert(old_views + seq![(tier, rv)] =~= old_views.push((tier, rv)));
    }
}

/// Sets the example path of `repo` in `v`.
fn set_path(v: &mut Vec<(String, String)>, repo: String, path: String)
    ensures
        string_pairs(final(v)@) == assoc_set(string_pairs(old(v)@), repo@, path@),
{
    let ghost old_views = string_pairs(v@);
    let ghost rv = path@;
    let mut i: usize = 0;
    proof {
        assert(old_views.skip(0) =~= old_views);
        assert(old_views.take(0) + assoc_set(old_views, repo@, rv) =~= assoc_set(old_views, repo@, rv));
    }
    while i < v.len()
        invariant
            i <= v@.len(),
            v@.len() == old_views.len(),
            string_pairs(v@) == old_views,
            old_views == string_pairs(old(v)@),
            rv == path@,
            assoc_set(old_views, repo@, rv) == old_views.take(i as int) + assoc_set(old_views.skip(i as int), repo@, rv),
        decreases v@.len() - i,
    {
        assert(old_views.skip(i as int)[0] == old_views[i as int]);
        if str_eq(v[i].0.as_str(), repo.as_str()) {
            let ghost pv = path@;
            let ghost kv = repo@;
            let ghost before = v@;
            v.set(i, (repo, path));
            proof {
                assert(v@ == before.update(i as int, (repo, path)));
                assert(string_pairs(v@)[i as int] == (kv, pv));
                assert forall|k: int| 0 <= k < v@.len() && k != i implies #[trigger] string_pairs(v@)[k] == old_views[k] by {
                    assert(v@[k] == before[k]);
                    assert(string_pairs(before)[k] == old_views[k]);
                }
                assert(string_pairs(v@) =~= old_views.update(i as int, (kv, pv)));
                assert(old_views.take(i as int) + old_views.skip(i as int).update(0, (kv, pv)) =~= old_views.update(i as int, (kv, pv)));
                assert(old_views[i as int].0 == kv);
                assert(old_views.skip(i as int)[0].0 == kv);
                assert(assoc_set(old_views.skip(i as int), kv, pv) == old_views.skip(i as int).update(0, (kv, pv)));
            }
            return;
        }
        proof {
            assert(old_views.skip(i as int).drop_first() =~= old_views.skip(i + 1));
            assert(old_views.take(i as int) + (seq![old_views[i as int]] + assoc_set(old_views.skip(i + 1), repo@, rv))
                =~= old_views.take(i + 1) + assoc_set(old_views.skip(i + 1), repo@, rv));
        }
        i = i + 1;
    }
    let ghost kv = repo@;
    let ghost pv = path@;
    v.push((repo, path));
    proof {
        assert(old_views.skip(i as int) =~= Seq::<(Seq<char>, Seq<char>)>::empty());
        assert(old_views.take(i as int) =~= old_views);
        assert(string_pairs(v@) =~= old_views.push((kv, pv)));
        assert(old_views + seq![(kv, pv)] =~= old_views.push((kv, pv)));
    }
}

/// The restriction that manifest `m` puts on `kind`.
fn restriction_for(m: &RepoManifest, kind: &str) -> (r: TierRestriction)
    ensures
        (r.allowed, crate::director::model::opt_view(r.notes), r.min_rwf) == restriction_of(*m, kind@),
{
    let allowed = m.allows_object_kind(kind);
    let notes = if !allowed {
        let mut n = String::from_str("Repo '");
        n.append(m.repo_name.as_str());
        n.append("' does not accept ");
        n.append(kind);
        Some(n)
    } else {
        None
    };
    TierRestriction { allowed, notes, min_rwf: m.min_rwf_for_tier }
}

fn clone_tier_ranges(v: &Vec<(crate::director::model::spine_types::Tier, NumericRange)>) -> (r: Vec<(crate::director::model::spine_types::Tier, NumericRange)>)
    ensures
        r@ == v@,
{
    let mut r: Vec<(crate::director::model::spine_types::Tier, NumericRange)> = Vec::new();
    let mut i: usize = 0;
    while i < v.len()
        invariant
            i <= v.len(),
            r@ == v@.take(i as int),
        decreases v.len() - i,
    {
        r.push(v[i]);
        i = i + 1;
        proof {
            assert(r@ =~= v@.take(i as int));
        }
    }
    proof {
        assert(v@.take(v.len() as int) =~= v@);
    }
    r
}

fn clone_tier_adjustments(v: &Vec<(crate::director::model::spine_types::Tier, MetricAdjustment)>) -> (r: Vec<(crate::director::model::spine_types::Tier, MetricAdjustment)>)
    ensures
        r@ == v@,
{
    let mut r: Vec<(crate::director::model::spine_types::Tier, MetricAdjustment)> = Vec::new();
    let mut i: usize = 0;
    while i < v.len()
        invariant
            i <= v.len(),
            r@ == v@.take(i as int),
        decreases v.len() - i,
    {
        r.push(v[i]);
        i = i + 1;
        proof {
            assert(r@ =~= v@.take(i as int));
        }
    }
    proof {
        assert(v@.take(v.len() as int) =~= v@);
    }
    r
}

/// Whether `names` has an entry named `n`.
fn has_name<V>(entries: &Vec<(String, V)>, n: &str) -> (r: bool)
    ensures
        r == entries@.map_values(|e: (String, V)| e.0@).contains(n@),
{
    let mut i: usize = 0;
    while i < entries.len()
        invariant
            i <= entries.len(),
            forall|k: int| 0 <= k < i ==> entries@[k].0@ != n@,
        decreases entries.len() - i,
    {
        if str_eq(entries[i].0.as_str(), n) {
            proof {
                assert(entries@.map_values(|e: (String, V)| e.0@)[i as int] == n@);
            }
            return true;
        }
        i = i + 1;
    }
    proof {
        let names = entries@.map_values(|e: (String, V)| e.0@);
        if names.contains(n@) {
            let k = choose|k: int| 0 <= k < names.len() && names[k] == n@;
            assert(entries@[k].0@ == n@);
        }
    }
    false
}

fn invariant_profiles(names: &Vec<String>, spine: &SchemaSpine) -> (r: Vec<(String, InvariantProfile)>)
    ensures
        r@.map_values(|e: (String, InvariantProfile)| e.0@) == defined_names(names@, spine.invariants@),
        forall|i: int| 0 <= i < r@.len() ==> (lookup(spine.invariants@, (#[trigger] r@[i]).0@) matches Some(s)
            && profiles_invariant(r@[i].1, s)),
{
    let mut out: Vec<(String, InvariantProfile)> = Vec::new();
    let mut j: usize = 0;
    proof {
        assert(out@.map_values(|e: (String, InvariantProfile)| e.0@) =~= defined_names(names@.take(0), spine.invariants@));
    }
    while j < names.len()
        invariant
            j <= names.len(),
            out@.map_values(|e: (String, InvariantProfile)| e.0@) == defined_names(names@.take(j as int), spine.invariants@),
            forall|i: int| 0 <= i < out@.len() ==> (lookup(spine.invariants@, (#[trigger] out@[i]).0@) matches Some(s)
                && profiles_invariant(out@[i].1, s)),
        decreases names.len() - j,
    {
        proof {
            assert(names@.take(j + 1).drop_last() =~= names@.take(j as int));
        }
        let name = &names[j];
        match spine.find_invariant(name.as_str()) {
            Some(spec) => {
                if !has_name(&out, name.as_str()) {
                    let ghost before = out@;
                    let p = InvariantProfile {
                        required: true,
                        range: spec.canonical_range,
                        tier_overrides: clone_tier_ranges(&spec.tier_overrides),
                        description: spec.description.clone(),
                    };
                    out.push((name.clone(), p));
                    proof {
                        assert(out@.map_values(|e: (String, InvariantProfile)| e.0@)
                            =~= before.map_values(|e: (String, InvariantProfile)| e.0@).push(name@));
                    }
                }
            },
            None => {},
        }
        j = j + 1;
    }
    proof {
        assert(names@.take(names.len() as int) =~= names@);
    }
    out
}

fn metric_profiles(names: &Vec<String>, spine: &SchemaSpine) -> (r: Vec<(String, MetricProfile)>)
    ensures
        r@.map_values(|e: (String, MetricProfile)| e.0@) == defined_names(names@, spine.metrics@),
        forall|i: int| 0 <= i < r@.len() ==> (lookup(spine.metrics@, (#[trigger] r@[i]).0@) matches Some(s)
            && profiles_metric(r@[i].1, s)),
{
    let mut out: Vec<(String, MetricProfile)> = Vec::new();
    let mut j: usize = 0;
    proof {
        assert(out@.map_values(|e: (String, MetricProfile)| e.0@) =~= defined_names(names@.take(0), spine.metrics@));
    }
    while j < names.len()
        invariant
            j <= names.len(),
            out@.map_values(|e: (String, MetricProfile)| e.0@) == defined_names(names@.take(j as int), spine.metrics@),
            forall|i: int| 0 <= i < out@.len() ==> (lookup(spine.metrics@, (#[trigger] out@[i]).0@) matches Some(s)
                && profiles_metric(out@[i].1, s)),
        decreases names.len() - j,
    {
        proof {
            assert(names@.take(j + 1).drop_last() =~= names@.take(j as int));
        }
        let name = &names[j];
        match spine.find_metric(name.as_str()) {
            Some(spec) => {
                if !has_name(&out, name.as_str()) {
                    let ghost before = out@;
                    let p = MetricProfile {
                        required: true,
                        target_band: spec.target_band,
                        tier_adjustments: clone_tier_adjustments(&spec.tier_adjustments),
                        description: spec.description.clone(),
                    };
                    out.push((name.clone(), p));
                    proof {
                        assert(out@.map_values(|e: (String, MetricProfile)| e.0@)
                            =~= before.map_values(|e: (String, MetricProfile)| e.0@).push(name@));
                    }
                }
            },
            None => {},
        }
        j = j + 1;
    }
    proof {
        assert(names@.take(names.len() as int) =~= names@);
    }
    out
}

/// Build the capability profile of `kind`: its family, phases, required
/// invariants and metrics with their ranges, the restriction each tier's
/// manifests put on it, and example target paths. An object kind that no
/// family lists is an error.
pub fn build_object_kind_profile(kind: &str, director: &ChatDirector) -> (r: Result<ObjectKindProfile, Error>)
    ensures
        match family_of(director.spec_spine().contract_families@, kind@) {
            None => r matches Err(Error::Internal { message }) && message@ == "Unknown objectKind: "@ + kind@,
            Some(_) => r matches Ok(p) && profile_of(p, kind@, director.spec_spine(), director.spec_manifests()),
        },
{
    let spine = director.spine_schema();
    let fi = match find_family(&spine.contract_families, kind) {
        Some(i) => i,
        None => {
            let mut message = String::from_str("Unknown objectKind: ");
            message.append(kind);
            return Err(Error::Internal { message });
        },
    };
    let family = &spine.contract_families[fi];
    let required_invariants = invariant_profiles(&family.required_invariants, spine);
    let required_metrics = metric_profiles(&family.required_metrics, spine);
    let manifests = director.repo_manifests();
    let mut tier_restrictions: Vec<(Tier, TierRestriction)> = Vec::new();
    let mut example: Vec<(String, String)> = Vec::new();
    let mut i: usize = 0;
    proof {
        assert(restriction_views(tier_restrictions@) =~= restrictions(manifests@.take(0), kind@));
        assert(string_pairs(example@) =~= example_paths(manifests@.take(0), kind@));
    }
    while i < manifests.len()
        invariant
            i <= manifests@.len(),
            restriction_views(tier_restrictions@) == restrictions(manifests@.take(i as int), kind@),
            string_pairs(example@) == example_paths(manifests@.take(i as int), kind@),
        decreases manifests@.len() - i,
    {
        proof {
            assert(manifests@.take(i + 1).drop_last() =~= manifests@.take(i as int));
        }
        let m = &manifests[i];
        let r = restriction_for(m, kind);
        set_restriction(&mut tier_restrictions, m.tier, r);
        if m.allows_object_kind(kind) {
            if let Some(template) = m.default_path_for(kind) {
                let path = replace_id_marker(template, "example_id");
                set_path(&mut example, m.repo_name.clone(), path);
            }
        }
        i = i + 1;
    }
    proof {
        assert(manifests@.take(manifests@.len() as int) =~= manifests@);
    }
    let mut phases: Vec<Phase> = Vec::new();
    let mut k: usize = 0;
    while k < family.allowed_phases.len()
        invariant
            k <= family.allowed_phases.len(),
            phases@ == family.allowed_phases@.take(k as int),
        decreases family.allowed_phases.len() - k,
    {
        phases.push(family.allowed_phases[k]);
        k = k + 1;
        proof {
            assert(phases@ =~= family.allowed_phases@.take(k as int));
        }
    }
    proof {
        assert(family.allowed_phases@.take(family.allowed_phases.len() as int) =~= family.allowed_phases@);
    }
    Ok(ObjectKindProfile {
        object_kind: String::from_str(kind),
        family: family.name.clone(),
        allowed_phases: phases,
        tier_restrictions,
        required_invariants,
        required_metrics,
        suggested_archetypes: Vec::new(),
        example_paths: example,
    })
}

/// Tier names that the `--tier` filter accepts.
pub open spec fn tier_filter_ok(t: Seq<char>) -> bool {
    t == "T1"@ || t == "t1"@ || t == "T1-core"@ || t == "t1-core"@ || t == "T2"@ || t == "t2"@ || t == "T2-vault"@
        || t == "t2-vault"@ || t == "T3"@ || t == "t3"@ || t == "T3-research"@ || t == "t3-research"@
}

/// The error of the phase and tier filters, if either is invalid (the
/// phase is checked first).
pub open spec fn filter_error(phase: Option<u8>, tier: Option<Seq<char>>) -> Option<Seq<char>> {
    match phase {
        Some(p) if p > 4 => Some("Invalid phase: "@ + crate::text::decimal(p as nat)),
        _ => match tier {
            Some(t) if !tier_filter_ok(t) => Some("Invalid tier: "@ + t),
            _ => None,
        },
    }
}

/// Checks the phase and tier filters. Valid filters leave the profiles as
/// they are.
pub fn apply_filters(profiles: DescribeOutput, phase: Option<u8>, tier: Option<&str>) -> (r: Result<DescribeOutput, Error>)
    ensures
        match filter_error(phase, crate::director::cli::plan::opt_str(tier)) {
            Some(m) => r matches Err(Error::Internal { message }) && message@ == m,
            None => r == Ok::<DescribeOutput, Error>(profiles),
        },
{
    if let Some(p) = phase {
        if p > 4 {
            let mut message = String::from_str("Invalid phase: ");
            let n = crate::text::decimal_string(p as u64);
            message.append(n.as_str());
            return Err(Error::Internal { message });
        }
    }
    if let Some(t) = tier {
        let ok = str_eq(t, "T1") || str_eq(t, "t1") || str_eq(t, "T1-core") || str_eq(t, "t1-core") || str_eq(t, "T2")
            || str_eq(t, "t2") || str_eq(t, "T2-vault") || str_eq(t, "t2-vault") || str_eq(t, "T3") || str_eq(t, "t3")
            || str_eq(t, "T3-research") || str_eq(t, "t3-research");
        if !ok {
            let mut message = String::from_str("Invalid tier: ");
            message.append(t);
            return Err(Error::Internal { message });
        }
    }
    Ok(profiles)
}

/// Describe one object kind, or every object kind of the spine, after
/// checking the phase and tier filters.
pub fn run(object_kind: Option<&str>, phase: Option<u8>, tier: Option<&str>, director: &ChatDirector) -> (r: Result<DescribeOutput, Error>)
    ensures
        match object_kind {
            Some(k) => match family_of(director.spec_spine().contract_families@, k@) {
                None => r matches Err(Error::Internal { message }) && message@ == "Unknown objectKind: "@ + k@,
                Some(_) => match filter_error(phase, crate::director::cli::plan::opt_str(tier)) {
                    Some(m) => r matches Err(Error::Internal { message }) && message@ == m,
                    None => r matches Ok(DescribeOutput::Single(p)) && profile_of(p, k@, director.spec_spine(), director.spec_manifests()),
                },
            },
            None => match filter_error(phase, crate::director::cli::plan::opt_str(tier)) {
                Some(m) => r matches Err(Error::Internal { message }) && message@ == m,
                None => r matches Ok(DescribeOutput::All(ps)) && {
                    let kinds = crate::director::cli::plan::all_kinds(director.spec_spine().contract_families@);
                    &&& ps@.len() == kinds.len()
                    &&& forall|i: int| 0 <= i < kinds.len() ==> profile_of(#[trigger] ps@[i], kinds[i], director.spec_spine(), director.spec_manifests())
                },
            },
        },
{
    let profiles = match object_kind {
        Some(kind) => match build_object_kind_profile(kind, director) {
            Ok(p) => DescribeOutput::Single(p),
            Err(e) => return Err(e),
        },
        None => {
            let fams = &director.spine_schema().contract_families;
            let ghost all = crate::director::cli::plan::all_kinds(fams@);
            let mut out: Vec<ObjectKindProfile> = Vec::new();
            let mut i: usize = 0;
            while i < fams.len()
                invariant
                    i <= fams.len(),
                    fams@ == director.spec_spine().contract_families@,
                    out@.len() == crate::director::cli::plan::all_kinds(fams@.take(i as int)).len(),
                    forall|k: int| 0 <= k < out@.len() ==> profile_of(#[trigger] out@[k], crate::director::cli::plan::all_kinds(fams@.take(i as int))[k],
                        director.spec_spine(), director.spec_manifests()),
                decreases fams.len() - i,
            {
                let ghost base = crate::director::cli::plan::all_kinds(fams@.take(i as int));
                proof {
                    assert(fams@.take(i + 1).drop_last() =~= fams@.take(i as int));
                    assert(crate::director::cli::plan::all_kinds(fams@.take(i + 1)) == base + views(fams@[i as int].kinds@));
                }
                let kinds = &fams[i].kinds;
                let mut j: usize = 0;
                while j < kinds.len()
                    invariant
                        j <= kinds.len(),
                        i < fams.len(),
                        fams@ == director.spec_spine().contract_families@,
                        kinds@ == fams@[i as int].kinds@,
                        out@.len() == base.len() + j,
                        forall|k: int| 0 <= k < out@.len() ==> profile_of(#[trigger] out@[k], (base + views(kinds@))[k],
                            director.spec_spine(), director.spec_manifests()),
                    decreases kinds.len() - j,
                {
                    proof {
                        assert(views(fams@[i as int].kinds@).contains(kinds@[j as int]@)) by {
                            assert(views(fams@[i as int].kinds@)[j as int] == kinds@[j as int]@);
                        }
                        lemma_family_of_some(fams@, i as int, kinds@[j as int]@);
                        assert((base + views(kinds@))[base.len() + j] == kinds@[j as int]@);
                    }
                    match build_object_kind_profile(kinds[j].as_str(), director) {
                        Ok(p) => {
                            out.push(p);
                        },
                        Err(_) => {},
                    }
                    j = j + 1;
                }
                i = i + 1;
            }
            proof {
                assert(fams@.take(fams.len() as int) =~= fams@);
            }
            DescribeOutput::All(out)
        },
    };
    apply_filters(profiles, phase, tier)
}

proof fn lemma_family_of_some(fams: Seq<ContractFamily>, i: int, kind: Seq<char>)
    requires
        0 <= i < fams.len(),
        family_has_kind(fams[i], kind),
    ensures
        family_of(fams, kind) is Some,
    decreases i,
{
    if !family_has_kind(fams[0], kind) {
        assert(fams.drop_first()[i - 1] == fams[i]);
        lemma_family_of_some(fams.drop_first(), i - 1, kind);
    }
}

/// The value of the first entry keyed `key`.
pub open spec fn assoc_get<K, V>(m: Seq<(K, V)>, key: K) -> Option<V>
    decreases m.len(),
{
    if m.len() == 0 {
        None
    } else if m[0].0 == key {
        Some(m[0].1)
    } else {
        assoc_get(m.drop_first(), key)
    }
}

proof fn lemma_assoc_set_get<K, V>(m: Seq<(K, V)>, key: K, value: V, k2: K)
    ensures
        assoc_get(assoc_set(m, key, value), k2) == if k2 == key { Some(value) } else { assoc_get(m, k2) },
    decreases m.len(),
{
    let s = assoc_set(m, key, value);
    if m.len() == 0 {
        assert(s == seq![(key, value)]);
        assert(s[0] == (key, value));
        assert(s.drop_first() =~= Seq::<(K, V)>::empty());
        assert(assoc_get(s.drop_first(), k2) is None);
    } else if m[0].0 == key {
        assert(s == m.update(0, (key, value)));
        assert(s[0] == (key, value));
        assert(s.drop_first() =~= m.drop_first());
    } else {
        lemma_assoc_set_get(m.drop_first(), key, value, k2);
        assert(s == seq![m[0]] + assoc_set(m.drop_first(), key, value));
        assert(s[0] == m[0]);
        assert(s.drop_first() =~= assoc_set(m.drop_first(), key, value));
    }
}

/// The example path that the manifests give repo `repo` for `kind`: that of
/// the last manifest named `repo` that accepts `kind` and has a default path
/// for it, with `{id}` replaced by `example_id`.
pub open spec fn last_example(ms: Seq<RepoManifest>, kind: Seq<char>, repo: Seq<char>) -> Option<Seq<char>>
    decreases ms.len(),
{
    if ms.len() == 0 {
        None
    } else {
        let m = ms.last();
        if m.repo_name@ == repo && allows_kind(m, kind) && lookup(m.default_target_paths@, kind) is Some {
            Some(replace_id(lookup(m.default_target_paths@, kind)->0@, "example_id"@))
        } else {
            last_example(ms.drop_last(), kind, repo)
        }
    }
}

/// The example paths, read as a map from repo name to path, give each repo
/// the path of its last manifest that accepts the kind and has a default
/// path for it, and no path to any other repo.
pub proof fn lemma_example_paths_map(ms: Seq<RepoManifest>, kind: Seq<char>, repo: Seq<char>)
    ensures
        assoc_get(example_paths(ms, kind), repo) == last_example(ms, kind, repo),
    decreases ms.len(),
{
    if ms.len() > 0 {
        lemma_example_paths_map(ms.drop_last(), kind, repo);
        let m = ms.last();
        let rest = example_paths(ms.drop_last(), kind);
        if allows_kind(m, kind) {
            if let Some(t) = lookup(m.default_target_paths@, kind) {
                lemma_assoc_set_get(rest, m.repo_name@, replace_id(t@, "example_id"@), repo);
            }
        }
    }
}

/// The first family listing `kind` is the answer, and there is none exactly
/// when no family lists it.
pub proof fn lemma_family_of_first(fams: Seq<ContractFamily>, kind: Seq<char>)
    ensures
        family_of(fams, kind) is None <==> forall|i: int| 0 <= i < fams.len() ==> !family_has_kind(#[trigger] fams[i], kind),
        family_of(fams, kind) matches Some(f) ==> exists|i: int| 0 <= i < fams.len() && fams[i] == f && family_has_kind(f, kind)
            && forall|j: int| 0 <= j < i ==> !family_has_kind(#[trigger] fams[j], kind),
    decreases fams.len(),
{
    if fams.len() > 0 {
        let rest = fams.drop_first();
        lemma_family_of_first(rest, kind);
        if !family_has_kind(fams[0], kind) {
            assert forall|i: int| 0 <= i < rest.len() implies rest[i] == fams[i + 1] by {}
            if family_of(fams, kind) is None {
                assert forall|i: int| 0 <= i < fams.len() implies !family_has_kind(#[trigger] fams[i], kind) by {
                    if i > 0 {
                        assert(fams[i] == rest[i - 1]);
                    }
                }
            } else {
                let f = family_of(fams, kind)->0;
                let i = choose|i: int| 0 <= i < rest.len() && rest[i] == f && family_has_kind(f, kind)
                    && forall|j: int| 0 <= j < i ==> !family_has_kind(#[trigger] rest[j], kind);
                assert(fams[i + 1] == f);
                assert forall|j: int| 0 <= j < i + 1 implies !family_has_kind(#[trigger] fams[j], kind) by {
                    if j > 0 {
                        assert(fams[j] == rest[j - 1]);
                    }
                }
            }
            if forall|i: int| 0 <= i < fams.len() ==> !family_has_kind(#[trigger] fams[i], kind) {
                assert forall|i: int| 0 <= i < rest.len() implies !family_has_kind(#[trigger] rest[i], kind) by {
                    assert(rest[i] == fams[i + 1]);
                }
            }
        }
    }
}

/// A name is among the defined required names exactly when it is required
/// and the spine defines it; the list holds each name once.
pub proof fn lemma_defined_names_members<V>(names: Seq<String>, defs: Seq<(String, V)>, n: Seq<char>)
    ensures
        defined_names(names, defs).contains(n) <==> (views(names).contains(n) && lookup(defs, n) is Some),
        defined_names(names, defs).no_duplicates(),
    decreases names.len(),
{
    if names.len() == 0 {
        assert(views(names).len() == 0);
        assert(defined_names(names, defs).len() == 0);
    } else {
        let init = names.drop_last();
        lemma_defined_names_members(init, defs, n);
        let rest = defined_names(init, defs);
        let l = names.last()@;
        assert(views(names) =~= views(init).push(l));
        if views(names).contains(n) {
            let j = choose|j: int| 0 <= j < views(names).len() && views(names)[j] == n;
            if j < init.len() {
                assert(views(init)[j] == n);
            }
        }
        if views(init).contains(n) {
            let j = choose|j: int| 0 <= j < views(init).len() && views(init)[j] == n;
            assert(views(names)[j] == n);
            assert(views(names).contains(n));
        }
        assert(views(names)[views(names).len() - 1] == l);
        assert(views(names).contains(l));
        if lookup(defs, l) is Some && !rest.contains(l) {
            let r2 = rest.push(l);
            if r2.contains(n) {
                let j = choose|j: int| 0 <= j < r2.len() && r2[j] == n;
                if j < rest.len() {
                    assert(rest[j] == n);
                    assert(rest.contains(n));
                } else {
                    assert(n == l);
                }
            }
            if rest.contains(n) {
                let j = choose|j: int| 0 <= j < rest.len() && rest[j] == n;
                assert(r2[j] == n);
            }
            assert(r2[r2.len() - 1] == l);
            assert forall|a: int, b: int| 0 <= a < r2.len() && 0 <= b < r2.len() && a != b implies r2[a] != r2[b] by {
                if a < rest.len() && b < rest.len() {
                    assert(r2[a] == rest[a] && r2[b] == rest[b]);
                } else if a < rest.len() {
                    assert(r2[a] == rest[a]);
                } else {
                    assert(r2[b] == rest[b]);
                }
            }
        } else if lookup(defs, l) is Some {
            // already present
        }
    }
}

/// The profile law of `build_object_kind_profile`: a profile exists exactly
/// when some family lists the kind, and then it is the profile of the first
/// such family: its name and phases, the required invariants and metrics
/// that the spine defines (each once), and the example paths read as a map
/// from repo name to the path of the repo's last manifest that accepts the
/// kind and has a default path for it.
pub proof fn lemma_profile_law(p: ObjectKindProfile, kind: Seq<char>, spine: SchemaSpine, ms: Seq<RepoManifest>, n: Seq<char>, repo: Seq<char>)
    requires
        profile_of(p, kind, spine, ms),
    ensures
        exists|i: int| 0 <= i < spine.contract_families@.len() && family_has_kind(#[trigger] spine.contract_families@[i], kind)
            && p.family@ == spine.contract_families@[i].name@ && p.allowed_phases@ == spine.contract_families@[i].allowed_phases@
            && (forall|j: int| 0 <= j < i ==> !family_has_kind(#[trigger] spine.contract_families@[j], kind))
            && (p.required_invariants@.map_values(|e: (String, InvariantProfile)| e.0@).contains(n)
                <==> views(spine.contract_families@[i].required_invariants@).contains(n) && lookup(spine.invariants@, n) is Some)
            && (p.required_metrics@.map_values(|e: (String, MetricProfile)| e.0@).contains(n)
                <==> views(spine.contract_families@[i].required_metrics@).contains(n) && lookup(spine.metrics@, n) is Some),
        p.object_kind@ == kind,
        assoc_get(string_pairs(p.example_paths@), repo) == last_example(ms, kind, repo),
{
    lemma_family_of_first(spine.contract_families@, kind);
    let f = family_of(spine.contract_families@, kind)->0;
    lemma_defined_names_members(f.required_invariants@, spine.invariants@, n);
    lemma_defined_names_members(f.required_metrics@, spine.metrics@, n);
    lemma_example_paths_map(ms, kind, repo);
}

/// A kind has a profile exactly when some family of the spine lists it.
pub proof fn lemma_profile_exists_iff(spine: SchemaSpine, kind: Seq<char>)
    ensures
        family_of(spine.contract_families@, kind) is None
            <==> forall|i: int| 0 <= i < spine.contract_families@.len() ==> !family_has_kind(#[trigger] spine.contract_families@[i], kind),
{
    lemma_family_of_first(spine.contract_families@, kind);
}

} // verus!
