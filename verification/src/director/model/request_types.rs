//! Typed representation of AI authoring requests and the defaults injected
//! into them.
use vstd::prelude::*;

use crate::director::model::spine_types::{Phase, Tier};

verus! {

/// Numeric band; bounds are binary64 bit patterns.
#[derive(Debug, Clone, Copy, PartialEq, Eq, Structural)]
pub struct NumericBand {
    pub min: u64,
    pub max: u64,
}

/// Normalized authoring intent from AI chat.
#[derive(Debug, Clone)]
pub struct AiAuthoringRequest {
    pub schema_ref: String,
    pub intent: String,
    pub object_kind: String,
    pub candidate_kinds: Vec<String>,
    pub target_repo: String,
    pub target_path: String,
    pub phase: Phase,
    pub tier: Tier,
    pub referenced_ids: Vec<String>,
    pub shci_bands: Option<NumericBand>,
    /// Intended invariant values keyed by name (binary64 bit patterns).
    pub intended_invariants: Vec<(String, u64)>,
    /// Intended metric targets keyed by name (binary64 bit patterns).
    pub intended_metrics: Vec<(String, u64)>,
    pub extra_guidance: Option<String>,
    pub agent_profile_id: Option<String>,
}

/// Source of a default value.
#[derive(Debug, Clone, Copy, PartialEq, Eq, Structural)]
pub enum DefaultSource {
    SpineSafeDefault,
    TierPolicy,
    ManifestHint,
    Fallback,
}

/// Default values injected when AI omits optional fields, with their sources.
#[derive(Debug, Clone)]
pub struct RequestDefaults {
    /// Source of each defaulted field, keyed by field name.
    pub sources: Vec<(String, DefaultSource)>,
}

/// Why the default for `field` was chosen.
pub open spec fn explanation(field: Seq<char>, source: DefaultSource) -> Seq<char> {
    match source {
        DefaultSource::SpineSafeDefault => "Default for '"@ + field + "' from spine safe_defaults"@,
        DefaultSource::TierPolicy => "Default for '"@ + field + "' from tier policy"@,
        DefaultSource::ManifestHint => "Default for '"@ + field + "' from manifest hint"@,
        DefaultSource::Fallback => "Fallback default for '"@ + field + "'"@,
    }
}

/// The `(field, text)` views of an explanation list.
pub open spec fn pair_views(v: Seq<(String, String)>) -> Seq<(Seq<char>, Seq<char>)> {
    v.map_values(|p: (String, String)| (p.0@, p.1@))
}

/// No two entries of `keys` are equal.
pub open spec fn distinct_keys(keys: Seq<Seq<char>>) -> bool {
    forall|i: int, j: int| 0 <= i < j < keys.len() ==> #[trigger] keys[i] != #[trigger] keys[j]
}

impl RequestDefaults {
    /// The invariant of the defaults: each field has one recorded source.
    pub open spec fn well_formed(&self) -> bool {
        distinct_keys(self.sources@.map_values(|p: (String, DefaultSource)| p.0@))
    }

    /// One explanation per defaulted field, in the order the sources list them;
    /// well-formed defaults give each field one explanation.
    pub fn explain(&self) -> (r: Vec<(String, String)>)
        ensures
            pair_views(r@) == self.sources@.map_values(
                |p: (String, DefaultSource)| (p.0@, explanation(p.0@, p.1)),
            ),
            self.well_formed() ==> distinct_keys(r@.map_values(|p: (String, String)| p.0@)),
    {
        let mut r: Vec<(String, String)> = Vec::new();
        let mut i: usize = 0;
        while i < self.sources.len()
            invariant
                i <= self.sources.len(),
                pair_views(r@) == self.sources@.take(i as int).map_values(
                    |p: (String, DefaultSource)| (p.0@, explanation(p.0@, p.1)),
                ),
            decreases self.sources.len() - i,
        {
            let field = &self.sources[i].0;
            let (head, tail) = match self.sources[i].1 {
                DefaultSource::SpineSafeDefault => ("Default for '", "' from spine safe_defaults"),
                DefaultSource::TierPolicy => ("Default for '", "' from tier policy"),
                DefaultSource::ManifestHint => ("Default for '", "' from manifest hint"),
                DefaultSource::Fallback => ("Fallback default for '", "'"),
            };
            let mut text = String::from_str(head);
            text.append(field.as_str());
            text.append(tail);
            proof {
                assert(text@ == explanation(field@, self.sources@[i as int].1));
            }
            let ghost before = r@;
            r.push((field.clone(), text));
            i = i + 1;
            proof {
                let f = |p: (String, DefaultSource)| (p.0@, explanation(p.0@, p.1));
                assert(self.sources@.take(i as int).drop_last() =~= self.sources@.take(i - 1));
                assert(self.sources@.take(i as int).map_values(f) =~= self.sources@.take(i - 1).map_values(f).push(f(self.sources@[i - 1])));
                assert(pair_views(r@) =~= pair_views(before).push((field@, text@)));
                assert(pair_views(r@) =~= self.sources@.take(i as int).map_values(
                    |p: (String, DefaultSource)| (p.0@, explanation(p.0@, p.1)),
                ));
            }
        }
        proof {
            assert(self.sources@.take(self.sources.len() as int) =~= self.sources@);
            if self.well_formed() {
                let ks = r@.map_values(|p: (String, String)| p.0@);
                let ss = self.sources@.map_values(|p: (String, DefaultSource)| p.0@);
                assert forall|a: int, b: int| 0 <= a < b < ks.len() implies #[trigger] ks[a] != #[trigger] ks[b] by {
                    assert(pair_views(r@)[a].0 == ks[a]);
                    assert(pair_views(r@)[b].0 == ks[b]);
                    assert(ss[a] != ss[b]);
                }
            }
        }
        r
    }
}

} // verus!
