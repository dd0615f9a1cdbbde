//! Manifest routing queries: canonical target paths for an intent and an
//! object kind, expanded from the manifests' path templates.
use vstd::prelude::*;

pub use crate::director::validate::manifests::{
    ManifestContext, ManifestDiagnostic, ManifestDiagnosticCode, ManifestDiagnosticSeverity, ManifestValidationResult,
};
use crate::director::model::manifest_types::{allows_kind, RepoManifest, Tier};
use crate::director::model::spine_types::{lookup, SchemaSpine};
use crate::text::{alphanumeric, is_alphanumeric, lowercase, push_char, replace_all, replace_text, to_lowercase};

verus! {

/// A canonical place for a new artifact.
#[derive(Debug, Clone)]
pub struct CanonicalTarget {
    pub target_repo: String,
    pub target_path: String,
    pub tier: Tier,
}

/// The URL-safe slug of `s`: lowercased, with every character that is not
/// alphanumeric replaced by `_`.
pub open spec fn slug(s: Seq<char>) -> Seq<char> {
    lowercase(s).map_values(|c: char| if alphanumeric(c) { c } else { '_' })
}

/// A path template with `{id}` replaced by the slug of the intent and the
/// `{tile_class}` and `{tier}` markers by placeholders.
pub open spec fn expanded(template: Seq<char>, intent: Seq<char>) -> Seq<char> {
    replace_all(
        replace_all(replace_all(template, "{id}"@, slug(intent)), "{tile_class}"@, "TODO_TILE"@),
        "{tier}"@,
        "TODO_TIER"@,
    )
}

/// The target a manifest proposes for an object kind: its repo, its
/// expanded default path and its tier, if it accepts the kind and has a
/// default path for it.
pub open spec fn proposed_target(m: RepoManifest, intent: Seq<char>, kind: Seq<char>) -> Option<(Seq<char>, Seq<char>, Tier)> {
    if allows_kind(m, kind) {
        match lookup(m.default_target_paths@, kind) {
            Some(template) => Some((m.repo_name@, expanded(template@, intent), m.tier)),
            None => None,
        }
    } else {
        None
    }
}

/// The proposed targets of the manifests, in manifest order.
pub open spec fn proposed_targets(ms: Seq<RepoManifest>, intent: Seq<char>, kind: Seq<char>) -> Seq<(Seq<char>, Seq<char>, Tier)>
    decreases ms.len(),
{
    if ms.len() == 0 {
        Seq::empty()
    } else {
        proposed_targets(ms.drop_last(), intent, kind) + match proposed_target(ms.last(), intent, kind) {
            Some(t) => seq![t],
            None => Seq::empty(),
        }
    }
}

/// A target as repo, path and tier.
pub open spec fn target_view(t: CanonicalTarget) -> (Seq<char>, Seq<char>, Tier) {
    (t.target_repo@, t.target_path@, t.tier)
}

/// Convert an intent to a URL-safe slug.
pub fn slugify(s: &str) -> (r: String)
    ensures
        r@ == slug(s@),
{
    let lower = to_lowercase(s);
    let cs = crate::text::chars_of(lower.as_str());
    let mut out = String::new();
    let mut i: usize = 0;
    while i < cs.len()
        invariant
            i <= cs@.len(),
            cs@ == lowercase(s@),
            out@ == cs@.take(i as int).map_values(|c: char| if alphanumeric(c) { c } else { '_' }),
        decreases cs@.len() - i,
    {
        let c = cs[i];
        let d = if is_alphanumeric(c) { c } else { '_' };
        push_char(&mut out, d);
        assert(cs@.take(i + 1) =~= cs@.take(i as int).push(c));
        i = i + 1;
        assert(out@ =~= cs@.take(i as int).map_values(|c: char| if alphanumeric(c) { c } else { '_' }));
    }
    assert(cs@.take(cs@.len() as int) =~= cs@);
    out
}

/// Expand a path template with intent-derived values.
pub fn expand_template(template: &str, intent: &str) -> (r: String)
    ensures
        r@ == expanded(template@, intent@),
{
    let slugged = slugify(intent);
    let a = replace_text(template, "{id}", slugged.as_str());
    let b = replace_text(a.as_str(), "{tile_class}", "TODO_TILE");
    replace_text(b.as_str(), "{tier}", "TODO_TIER")
}

/// Suggest canonical targets for an intent and an object kind: one per
/// manifest that accepts the kind and has a default path for it, in
/// manifest order.
pub fn suggest_paths(intent: &str, object_kind: &str, manifests: &[RepoManifest], _spine: &SchemaSpine) -> (r: Vec<CanonicalTarget>)
    ensures
        r@.map_values(|t: CanonicalTarget| target_view(t)) == proposed_targets(manifests@, intent@, object_kind@),
{
    let mut out: Vec<CanonicalTarget> = Vec::new();
    let mut i: usize = 0;
    assert(manifests@.take(0) =~= Seq::<RepoManifest>::empty());
    assert(out@.map_values(|t: CanonicalTarget| target_view(t)) =~= proposed_targets(manifests@.take(0), intent@, object_kind@));
    while i < manifests.len()
        invariant
            i <= manifests@.len(),
            out@.map_values(|t: CanonicalTarget| target_view(t)) == proposed_targets(manifests@.take(i as int), intent@, object_kind@),
        decreases manifests@.len() - i,
    {
        let m = &manifests[i];
        let ghost before = out@.map_values(|t: CanonicalTarget| target_view(t));
        if m.allows_object_kind(object_kind) {
            if let Some(template) = m.default_path_for(object_kind) {
                let target_path = expand_template(template, intent);
                out.push(CanonicalTarget { target_repo: m.repo_name.clone(), target_path, tier: m.tier });
                assert(out@.map_values(|t: CanonicalTarget| target_view(t)) =~= before.push(proposed_target(*m, intent@, object_kind@)->0));
            }
        }
        proof {
            let mi = manifests@.take(i + 1);
            assert(mi.drop_last() =~= manifests@.take(i as int));
            assert(mi.last() == *m);
            assert(out@.map_values(|t: CanonicalTarget| target_view(t)) =~= proposed_targets(mi, intent@, object_kind@));
        }
        i = i + 1;
    }
    assert(manifests@.take(manifests@.len() as int) =~= manifests@);
    out
}


/// Suggestions only point to repos that accept the kind: every suggested
/// target carries the name and tier of a manifest that accepts the object
/// kind and has a default path for it.
pub proof fn lemma_suggestions_accept_kind(ms: Seq<RepoManifest>, intent: Seq<char>, kind: Seq<char>)
    ensures
        forall|j: int| 0 <= j < proposed_targets(ms, intent, kind).len() ==> exists|i: int|
            0 <= i < ms.len() && ms[i].repo_name@ == (#[trigger] proposed_targets(ms, intent, kind)[j]).0
                && allows_kind(ms[i], kind) && lookup(ms[i].default_target_paths@, kind) is Some
                && proposed_targets(ms, intent, kind)[j].2 == ms[i].tier,
    decreases ms.len(),
{
    if ms.len() > 0 {
        let q = ms.drop_last();
        lemma_suggestions_accept_kind(q, intent, kind);
        let t = proposed_targets(ms, intent, kind);
        let tq = proposed_targets(q, intent, kind);
        assert forall|j: int| 0 <= j < t.len() implies exists|i: int|
            0 <= i < ms.len() && ms[i].repo_name@ == (#[trigger] t[j]).0 && allows_kind(ms[i], kind)
                && lookup(ms[i].default_target_paths@, kind) is Some && t[j].2 == ms[i].tier by {
            if j < tq.len() {
                assert(t[j] == tq[j]);
                let i = choose|i: int| 0 <= i < q.len() && q[i].repo_name@ == (#[trigger] tq[j]).0 && allows_kind(q[i], kind)
                    && lookup(q[i].default_target_paths@, kind) is Some && tq[j].2 == q[i].tier;
                assert(ms[i] == q[i]);
            } else {
                let i = ms.len() - 1;
                assert(ms[i] == ms.last());
            }
        }
    }
}

} // verus!
