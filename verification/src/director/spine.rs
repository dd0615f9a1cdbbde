//! Phase identifiers and their descriptions.
use vstd::prelude::*;

pub use crate::director::model::spine_types::Phase;
use crate::director::model::spine_types::{lookup, lookup_tier, DefaultBands, ObjectKindProfile, SchemaSpine, Tier, kind_known};

verus! {

/// The numeric id of a phase (0 to 4, in pipeline order).
pub open spec fn phase_id(p: Phase) -> u8 {
    match p {
        Phase::Schema0 => 0,
        Phase::Registry1 => 1,
        Phase::Bundles2 => 2,
        Phase::LuaPolicy3 => 3,
        Phase::Adapters4 => 4,
    }
}

impl Phase {
    /// The phase's position in the pipeline.
    pub fn id(self) -> (r: u8)
        ensures
            r == phase_id(self),
    {
        match self {
            Phase::Schema0 => 0,
            Phase::Registry1 => 1,
            Phase::Bundles2 => 2,
            Phase::LuaPolicy3 => 3,
            Phase::Adapters4 => 4,
        }
    }

    /// The phase's canonical name.
    pub fn name(self) -> (r: &'static str)
        ensures
            r@ == match self {
                Phase::Schema0 => "Schema0"@,
                Phase::Registry1 => "Registry1"@,
                Phase::Bundles2 => "Bundles2"@,
                Phase::LuaPolicy3 => "LuaPolicy3"@,
                Phase::Adapters4 => "Adapters4"@,
            },
    {
        match self {
            Phase::Schema0 => "Schema0",
            Phase::Registry1 => "Registry1",
            Phase::Bundles2 => "Bundles2",
            Phase::LuaPolicy3 => "LuaPolicy3",
            Phase::Adapters4 => "Adapters4",
        }
    }

    /// What the phase produces.
    pub fn description(self) -> (r: &'static str)
        ensures
            r@ == phase_description(self),
    {
        match self {
            Phase::Schema0 => "Core schemas and invariants/metrics spine definition.",
            Phase::Registry1 => "Registry entries and region/seed/mood/event indices.",
            Phase::Bundles2 => "Higher-order bundles and choreography contracts.",
            Phase::LuaPolicy3 => "Lua policy modules bound to contracts and metrics.",
            Phase::Adapters4 => "Engine adapters and external pipeline integration.",
        }
    }
}

/// What phase `p` produces.
pub open spec fn phase_description(p: Phase) -> Seq<char> {
    match p {
        Phase::Schema0 => "Core schemas and invariants/metrics spine definition."@,
        Phase::Registry1 => "Registry entries and region/seed/mood/event indices."@,
        Phase::Bundles2 => "Higher-order bundles and choreography contracts."@,
        Phase::LuaPolicy3 => "Lua policy modules bound to contracts and metrics."@,
        Phase::Adapters4 => "Engine adapters and external pipeline integration."@,
    }
}

/// Every phase, in pipeline order.
pub open spec fn all_phases() -> Seq<Phase> {
    seq![Phase::Schema0, Phase::Registry1, Phase::Bundles2, Phase::LuaPolicy3, Phase::Adapters4]
}

/// Phase ids are the positions of the phases in pipeline order, so two
/// phases with the same id are the same phase.
pub proof fn lemma_phase_id_is_position(p: Phase, q: Phase)
    ensures
        all_phases()[phase_id(p) as int] == p,
        phase_id(p) == phase_id(q) <==> p == q,
{
}

/// A loaded schema spine together with the root it was loaded from.
#[derive(Debug, Clone)]
pub struct SpineIndex {
    root: String,
    schema_spine: SchemaSpine,
}

impl SpineIndex {
    pub closed spec fn spec_root(&self) -> Seq<char> {
        self.root@
    }

    pub closed spec fn spec_spine(&self) -> SchemaSpine {
        self.schema_spine
    }

    /// An index of `schema_spine`, loaded from `root`.
    pub fn new(root: String, schema_spine: SchemaSpine) -> (r: Self)
        ensures
            r.spec_root() == root@,
            r.spec_spine() == schema_spine,
    {
        SpineIndex { root, schema_spine }
    }

    /// The constellation root the spine was loaded from.
    pub fn root(&self) -> (r: &str)
        ensures
            r@ == self.spec_root(),
    {
        self.root.as_str()
    }

    /// The spine version.
    pub fn version(&self) -> (r: &str)
        ensures
            r@ == self.spec_spine().version@,
    {
        self.schema_spine.version.as_str()
    }

    /// The spine itself.
    pub fn inner(&self) -> (r: &SchemaSpine)
        ensures
            *r == self.spec_spine(),
    {
        &self.schema_spine
    }

    /// The profile of `kind` (see `SchemaSpine::describe_object_kind`).
    pub fn describe_object_kind(&self, kind: &str) -> (r: Option<ObjectKindProfile>)
        ensures
            r is None <==> !kind_known(self.spec_spine().contract_families@, kind@),
            r matches Some(p) ==> p.object_kind@ == kind@,
    {
        self.schema_spine.describe_object_kind(kind)
    }

    /// The safe default bands of `object_kind` at `tier`.
    pub fn safe_defaults(&self, object_kind: &str, tier: Tier) -> (r: Option<DefaultBands>)
        ensures
            match lookup(self.spec_spine().safe_defaults@, object_kind@) {
                None => r is None,
                Some(by) => match lookup_tier(by.by_tier@, tier) {
                    None => r is None,
                    Some(b) => r matches Some(rb) && rb@ == b@,
                },
            },
    {
        self.schema_spine.safe_defaults_for(object_kind, tier)
    }
}

} // verus!
