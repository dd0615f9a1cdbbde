//! The `plan` subcommand: normalize a natural-language prompt into a
//! structured authoring request, with target repo, path and guidance.
use vstd::prelude::*;

use crate::director::config::Config;
use crate::director::errors::Error;
use crate::director::model::manifest_types::{allows_kind, RepoManifest};
use crate::director::model::request_types::AiAuthoringRequest;
use crate::director::model::spine_types::{lookup, lookup_tier, kind_known, ContractFamily, DefaultBands, NumericRange, Phase, SchemaSpine, Tier};
use crate::director::phases::{find_manifest_named, manifest_named};
use crate::text::{has_sub, lowercase, replace_id, replace_id_marker, str_contains, str_eq, to_lowercase, views};

verus! {

/// Guidance for AI generation, derived from the spine.
#[derive(Debug, Clone)]
pub struct GenerationGuide {
    /// Safe invariant bands of the object kind at the tier, by name.
    pub invariant_ranges: Vec<(String, NumericRange)>,
    /// Safe metric bands of the object kind at the tier, by name.
    pub metric_targets: Vec<(String, NumericRange)>,
    pub suggested_archetypes: Vec<String>,
    pub common_pitfalls: Vec<String>,
    pub example_referenced_ids: Vec<String>,
}

/// Result of planning: the normalized request and generation guidance.
#[derive(Debug, Clone)]
pub struct PlanResult {
    pub request: AiAuthoringRequest,
    pub generation_guide: Option<GenerationGuide>,
    pub candidate_kinds: Vec<String>,
}

/// `s` with every occurrence of `pat` removed, scanning left to right
/// (`str::replace(pat, "")`).
pub open spec fn remove_all(s: Seq<char>, pat: Seq<char>) -> Seq<char>
    decreases s.len(),
{
    if s.len() == 0 {
        s
    } else if pat.len() > 0 && pat.len() <= s.len() && s.subrange(0, pat.len() as int) == pat {
        remove_all(s.skip(pat.len() as int), pat)
    } else {
        seq![s[0]] + remove_all(s.drop_first(), pat)
    }
}

/// `s` with every occurrence of `pat` removed.
pub fn remove_occurrences(s: &str, pat: &str) -> (r: String)
    ensures
        r@ == remove_all(s@, pat@),
{
    let cs = crate::text::chars_of(s);
    let ps = crate::text::chars_of(pat);
    let n = cs.len();
    let m = ps.len();
    let mut out: Vec<char> = Vec::new();
    let mut i: usize = 0;
    assert(cs@.skip(0) =~= cs@);
    while i < n
        invariant
            n == cs@.len(),
            m == ps@.len(),
            cs@ == s@,
            ps@ == pat@,
            i <= n,
            out@ + remove_all(cs@.skip(i as int), ps@) == remove_all(s@, pat@),
        decreases n - i,
    {
        let ghost rest = cs@.skip(i as int);
        let matched = m > 0 && m <= n - i && {
            let mut k: usize = 0;
            let mut ok = true;
            while k < m
                invariant
                    m <= n - i,
                    n == cs@.len(),
                    m == ps@.len(),
                    k <= m,
                    ok == (forall|t: int| 0 <= t < k ==> cs@[i + t] == ps@[t]),
                decreases m - k,
            {
                if cs[i + k] != ps[k] {
                    ok = false;
                }
                k = k + 1;
            }
            ok
        };
        if matched {
            proof {
                assert(rest.subrange(0, m as int) =~= ps@);
                assert(rest.skip(m as int) =~= cs@.skip(i + m));
            }
            i = i + m;
        } else {
            proof {
                if m > 0 && m <= n - i {
                    assert(!(rest.subrange(0, m as int) =~= ps@));
                }
                assert(rest.drop_first() =~= cs@.skip(i + 1));
                assert(out@.push(cs@[i as int]) + remove_all(cs@.skip(i + 1), ps@) =~= out@ + (seq![rest[0]] + remove_all(rest.drop_first(), ps@)));
            }
            out.push(cs[i]);
            i = i + 1;
        }
    }
    proof {
        assert(cs@.skip(n as int) =~= Seq::<char>::empty());
        assert(out@ + remove_all(cs@.skip(n as int), ps@) =~= out@);
    }
    crate::text::string_of(&out)
}

/// Whether the lowercased prompt mentions `kind` (lowercased), or the
/// lowercased kind without the word `contract`.
pub open spec fn prompt_mentions(prompt_lower: Seq<char>, kind: Seq<char>) -> bool {
    has_sub(prompt_lower, lowercase(kind)) || has_sub(prompt_lower, remove_all(lowercase(kind), "contract"@))
}

/// The object kinds of the families, in order.
pub open spec fn all_kinds(families: Seq<ContractFamily>) -> Seq<Seq<char>>
    decreases families.len(),
{
    if families.len() == 0 {
        seq![]
    } else {
        all_kinds(families.drop_last()) + views(families.last().kinds@)
    }
}

/// The object kinds that the prompt mentions, in spine order.
pub open spec fn prompt_candidates(prompt: Seq<char>, families: Seq<ContractFamily>) -> Seq<Seq<char>> {
    all_kinds(families).filter(|k: Seq<char>| prompt_mentions(lowercase(prompt), k))
}

proof fn lemma_filter_push_kinds(s: Seq<Seq<char>>, p: spec_fn(Seq<char>) -> bool, x: Seq<char>)
    ensures
        s.push(x).filter(p) == if p(x) { s.filter(p).push(x) } else { s.filter(p) },
{
    reveal(Seq::filter);
    assert(s.push(x).drop_last() =~= s);
}

proof fn lemma_filter_concat(a: Seq<Seq<char>>, b: Seq<Seq<char>>, p: spec_fn(Seq<char>) -> bool)
    ensures
        (a + b).filter(p) == a.filter(p) + b.filter(p),
    decreases b.len(),
{
    if b.len() == 0 {
        assert(a + b =~= a);
        reveal(Seq::filter);
        assert(a.filter(p) + b.filter(p) =~= a.filter(p));
    } else {
        lemma_filter_concat(a, b.drop_last(), p);
        assert((a + b).drop_last() =~= a + b.drop_last());
        lemma_filter_push_kinds(a + b.drop_last(), p, b.last());
        lemma_filter_push_kinds(b.drop_last(), p, b.last());
        assert(a + b =~= (a + b.drop_last()).push(b.last()));
        assert(b =~= b.drop_last().push(b.last()));
    }
}

/// The object kinds of the families whose (non-empty) name occurs in the
/// lowercased prompt, in spine order.
pub open spec fn family_candidates(prompt_lower: Seq<char>, families: Seq<ContractFamily>) -> Seq<Seq<char>>
    decreases families.len(),
{
    if families.len() == 0 {
        seq![]
    } else {
        let f = families.last();
        family_candidates(prompt_lower, families.drop_last()) + if f.name@.len() > 0 && has_sub(prompt_lower, lowercase(f.name@)) {
            views(f.kinds@)
        } else {
            seq![]
        }
    }
}

/// The object kind a prompt asks for and the candidate kinds offered with it.
///
/// Kinds the prompt names (see `prompt_mentions`) come first: a single one is
/// the answer with no candidates, several make the first the answer and all
/// of them the candidates. A prompt that names no kind but names a contract
/// family (`region`, `mood`, ...) is ambiguous: the kinds of the named
/// families are the candidates and the first is the answer. A prompt that
/// names neither has no answer.
pub open spec fn kind_choice(prompt: Seq<char>, families: Seq<ContractFamily>) -> Option<(Seq<char>, Seq<Seq<char>>)> {
    let c = prompt_candidates(prompt, families);
    if c.len() == 1 {
        Some((c[0], seq![]))
    } else if c.len() > 1 {
        Some((c[0], c))
    } else {
        let f = family_candidates(lowercase(prompt), families);
        if f.len() > 0 {
            Some((f[0], f))
        } else {
            None
        }
    }
}

/// The kinds of the families whose name occurs in the lowercased prompt.
fn family_kinds_in(prompt_lower: &str, families: &Vec<ContractFamily>) -> (r: Vec<String>)
    ensures
        views(r@) == family_candidates(prompt_lower@, families@),
{
    let mut out: Vec<String> = Vec::new();
    let mut i: usize = 0;
    while i < families.len()
        invariant
            i <= families.len(),
            views(out@) == family_candidates(prompt_lower@, families@.take(i as int)),
        decreases families.len() - i,
    {
        proof {
            assert(families@.take(i + 1).drop_last() =~= families@.take(i as int));
            assert(families@.take(i + 1).last() == families@[i as int]);
        }
        let f = &families[i];
        let name_lower = to_lowercase(f.name.as_str());
        if f.name.unicode_len() > 0 && str_contains(prompt_lower, name_lower.as_str()) {
            let mut j: usize = 0;
            let ghost base = views(out@);
            while j < f.kinds.len()
                invariant
                    j <= f.kinds.len(),
                    views(out@) == base + views(f.kinds@).take(j as int),
                decreases f.kinds.len() - j,
            {
                let ghost before = out@;
                out.push(f.kinds[j].clone());
                proof {
                    assert(views(out@) =~= views(before).push(f.kinds@[j as int]@));
                    assert(views(f.kinds@).take(j + 1) =~= views(f.kinds@).take(j as int).push(f.kinds@[j as int]@));
                }
                j = j + 1;
            }
            proof {
                assert(views(f.kinds@).take(f.kinds.len() as int) =~= views(f.kinds@));
            }
        } else {
            proof {
                assert(views(out@) =~= views(out@) + Seq::<Seq<char>>::empty());
            }
        }
        i = i + 1;
    }
    proof {
        assert(families@.take(families.len() as int) =~= families@);
    }
    out
}

/// Extract the object kind a prompt asks for, with the candidate kinds
/// offered beside it (see `kind_choice`).
pub fn extract_object_kind_from_prompt(prompt: &str, spine: &SchemaSpine) -> (r: Result<(String, Vec<String>), Error>)
    ensures
        match kind_choice(prompt@, spine.contract_families@) {
            None => r matches Err(Error::Internal { message }) && message@ == "Could not determine objectKind from prompt: "@ + prompt@,
            Some((k, cs)) => r matches Ok((rk, rcs)) && rk@ == k && views(rcs@) == cs,
        },
{
    let prompt_lower = to_lowercase(prompt);
    let fams = &spine.contract_families;
    let ghost pl = lowercase(prompt@);
    let ghost p = |k: Seq<char>| prompt_mentions(lowercase(prompt@), k);
    let mut candidates: Vec<String> = Vec::new();
    let mut i: usize = 0;
    proof {
        reveal(Seq::filter);
        assert(views(candidates@) =~= all_kinds(fams@.take(0)).filter(p));
    }
    while i < fams.len()
        invariant
            i <= fams.len(),
            fams@ == spine.contract_families@,
            prompt_lower@ == lowercase(prompt@),
            p == (|k: Seq<char>| prompt_mentions(lowercase(prompt@), k)),
            views(candidates@) == all_kinds(fams@.take(i as int)).filter(p),
        decreases fams.len() - i,
    {
        proof {
            assert(fams@.take(i + 1).drop_last() =~= fams@.take(i as int));
        }
        let kinds = &fams[i].kinds;
        let ghost base = all_kinds(fams@.take(i as int));
        let mut j: usize = 0;
        while j < kinds.len()
            invariant
                j <= kinds.len(),
                prompt_lower@ == lowercase(prompt@),
                p == (|k: Seq<char>| prompt_mentions(lowercase(prompt@), k)),
                views(candidates@) == (base + views(kinds@).take(j as int)).filter(p),
            decreases kinds.len() - j,
        {
            let kind = &kinds[j];
            let kind_lower = to_lowercase(kind.as_str());
            let stripped = remove_occurrences(kind_lower.as_str(), "contract");
            let hit = str_contains(prompt_lower.as_str(), kind_lower.as_str()) || str_contains(prompt_lower.as_str(), stripped.as_str());
            proof {
                assert(base + views(kinds@).take(j + 1) =~= (base + views(kinds@).take(j as int)).push(kind@));
                lemma_filter_push_kinds(base + views(kinds@).take(j as int), p, kind@);
            }
            if hit {
                let ghost before = candidates@;
                candidates.push(kind.clone());
                proof {
                    assert(views(candidates@) =~= views(before).push(kind@));
                }
            }
            j = j + 1;
        }
        proof {
            assert(views(kinds@).take(kinds.len() as int) =~= views(kinds@));
            assert(all_kinds(fams@.take(i + 1)) =~= base + views(kinds@));
        }
        i = i + 1;
    }
    proof {
        assert(fams@.take(fams.len() as int) =~= fams@);
    }
    if candidates.len() == 0 {
        let by_family = family_kinds_in(prompt_lower.as_str(), fams);
        if by_family.len() == 0 {
            let mut message = String::from_str("Could not determine objectKind from prompt: ");
            message.append(prompt);
            return Err(Error::Internal { message });
        }
        let first = by_family[0].clone();
        return Ok((first, by_family));
    }
    if candidates.len() == 1 {
        let none: Vec<String> = Vec::new();
        proof {
            assert(views(none@) =~= Seq::<Seq<char>>::empty());
        }
        return Ok((candidates[0].clone(), none));
    }
    let first = candidates[0].clone();
    Ok((first, candidates))
}

/// An ASCII letter or digit, `_` or `-`.
pub open spec fn word_char(c: char) -> bool {
    ('a' <= c && c <= 'z') || ('A' <= c && c <= 'Z') || ('0' <= c && c <= '9') || c == '_' || c == '-'
}

/// The head of `s` belongs to an identifier: a word character, or a dot
/// followed by one.
pub open spec fn id_head(s: Seq<char>) -> bool {
    s.len() > 0 && (word_char(s[0]) || (s[0] == '.' && s.len() > 1 && word_char(s[1])))
}

/// A dotted identifier such as `region.backrooms_v1`: it does not start with
/// a dot and holds one.
pub open spec fn is_ref_id(t: Seq<char>) -> bool {
    t.len() > 0 && t[0] != '.' && t.contains('.')
}

/// The identifier `cur` if it is a dotted one, else nothing.
pub open spec fn finish_token(cur: Seq<char>) -> Seq<Seq<char>> {
    if is_ref_id(cur) {
        seq![cur]
    } else {
        seq![]
    }
}

/// The dotted identifiers of `s`, the current identifier being `cur`.
pub open spec fn scan_ids(s: Seq<char>, cur: Seq<char>) -> Seq<Seq<char>>
    decreases s.len(),
{
    if s.len() == 0 {
        finish_token(cur)
    } else if id_head(s) {
        scan_ids(s.drop_first(), cur.push(s[0]))
    } else {
        finish_token(cur) + scan_ids(s.drop_first(), seq![])
    }
}

/// The dotted identifiers that a prompt mentions, in order: the maximal runs
/// of word characters and inner dots that hold a dot and do not start with
/// one.
pub open spec fn referenced_ids_in(prompt: Seq<char>) -> Seq<Seq<char>> {
    scan_ids(prompt, seq![])
}

fn is_word_char(c: char) -> (r: bool)
    ensures
        r == word_char(c),
{
    ('a' <= c && c <= 'z') || ('A' <= c && c <= 'Z') || ('0' <= c && c <= '9') || c == '_' || c == '-'
}

/// Appends `cur` to `out` if it is a dotted identifier.
fn flush_token(out: &mut Vec<String>, cur: &Vec<char>)
    ensures
        views(final(out)@) == views(old(out)@) + finish_token(cur@),
{
    let mut has_dot = false;
    let mut k: usize = 0;
    while k < cur.len()
        invariant
            k <= cur.len(),
            has_dot == (exists|t: int| 0 <= t < k && cur@[t] == '.'),
        decreases cur.len() - k,
    {
        if cur[k] == '.' {
            has_dot = true;
        }
        k = k + 1;
    }
    if cur.len() > 0 && cur[0] != '.' && has_dot {
        proof {
            let t = choose|t: int| 0 <= t < k && cur@[t] == '.';
            assert(cur@.contains('.'));
        }
        let ghost before = out@;
        out.push(crate::text::string_of(cur));
        proof {
            assert(views(out@) =~= views(before) + seq![cur@]);
        }
    } else {
        proof {
            if cur@.contains('.') {
                let t = choose|t: int| 0 <= t < cur@.len() && cur@[t] == '.';
                assert(cur@[t] == '.');
            }
            assert(views(out@) =~= views(out@) + Seq::<Seq<char>>::empty());
        }
    }
}

/// The dotted identifiers that a prompt mentions (see `referenced_ids_in`).
pub fn extract_referenced_ids(prompt: &str) -> (r: Vec<String>)
    ensures
        views(r@) == referenced_ids_in(prompt@),
{
    let cs = crate::text::chars_of(prompt);
    let n = cs.len();
    let mut out: Vec<String> = Vec::new();
    let mut cur: Vec<char> = Vec::new();
    let mut i: usize = 0;
    proof {
        assert(cs@.skip(0) =~= cs@);
        assert(views(out@) =~= Seq::<Seq<char>>::empty());
        assert(cur@ =~= Seq::<char>::empty());
    }
    while i < n
        invariant
            n == cs@.len(),
            cs@ == prompt@,
            i <= n,
            views(out@) + scan_ids(cs@.skip(i as int), cur@) == referenced_ids_in(prompt@),
        decreases n - i,
    {
        let ghost rest = cs@.skip(i as int);
        proof {
            assert(rest.drop_first() =~= cs@.skip(i + 1));
            assert(rest[0] == cs@[i as int]);
            if i + 1 < n {
                assert(rest[1] == cs@[i + 1]);
            }
        }
        let c = cs[i];
        let head = is_word_char(c) || (c == '.' && i + 1 < n && is_word_char(cs[i + 1]));
        assert(head == id_head(rest));
        if head {
            cur.push(c);
        } else {
            let ghost before = views(out@);
            let ghost old_cur = cur@;
            flush_token(&mut out, &cur);
            cur = Vec::new();
            proof {
                assert(cur@ =~= Seq::<char>::empty());
                assert(before + scan_ids(rest, old_cur) == before + (finish_token(old_cur) + scan_ids(cs@.skip(i + 1), seq![])));
                assert(before + (finish_token(old_cur) + scan_ids(cs@.skip(i + 1), seq![])) =~= views(out@) + scan_ids(cs@.skip(i + 1), cur@));
            }
        }
        i = i + 1;
    }
    proof {
        assert(cs@.skip(n as int) =~= Seq::<char>::empty());
    }
    flush_token(&mut out, &cur);
    out
}

/// The spine tier corresponding to a manifest tier.
pub open spec fn spine_tier(t: crate::director::model::manifest_types::Tier) -> Tier {
    match t {
        crate::director::model::manifest_types::Tier::T1Core => Tier::T1,
        crate::director::model::manifest_types::Tier::T2Vault => Tier::T2,
        crate::director::model::manifest_types::Tier::T3Research => Tier::T3,
    }
}

fn to_spine_tier(t: crate::director::model::manifest_types::Tier) -> (r: Tier)
    ensures
        r == spine_tier(t),
{
    match t {
        crate::director::model::manifest_types::Tier::T1Core => Tier::T1,
        crate::director::model::manifest_types::Tier::T2Vault => Tier::T2,
        crate::director::model::manifest_types::Tier::T3Research => Tier::T3,
    }
}

/// The target path that manifest `m` gives object kind `kind`.
pub open spec fn target_path(m: RepoManifest, kind: Seq<char>) -> Seq<char> {
    match lookup(m.default_target_paths@, kind) {
        Some(p) => replace_id(p@, "TODO_ID"@),
        None => replace_id("{id}.json"@, "TODO_ID"@),
    }
}

/// The first manifest that accepts `kind`.
pub open spec fn first_accepting(ms: Seq<RepoManifest>, kind: Seq<char>) -> Option<RepoManifest>
    decreases ms.len(),
{
    if ms.len() == 0 {
        None
    } else if allows_kind(ms[0], kind) {
        Some(ms[0])
    } else {
        first_accepting(ms.drop_first(), kind)
    }
}

fn path_for(m: &RepoManifest, kind: &str) -> (r: String)
    ensures
        r@ == target_path(*m, kind@),
{
    match m.default_path_for(kind) {
        Some(p) => replace_id_marker(p, "TODO_ID"),
        None => replace_id_marker("{id}.json", "TODO_ID"),
    }
}

/// The characters of an optional string slice.
pub open spec fn opt_str(o: Option<&str>) -> Option<Seq<char>> {
    match o {
        Some(s) => Some(s@),
        None => None,
    }
}

/// The repo, path and tier that `kind` resolves to, `None` when no repo
/// accepts it.
pub open spec fn resolved(kind: Seq<char>, repo_override: Option<Seq<char>>, ms: Seq<RepoManifest>) -> Option<(Seq<char>, Seq<char>, Tier)> {
    match repo_override {
        Some(repo) => match manifest_named(ms, repo) {
            Some(m) => if allows_kind(m, kind) {
                Some((repo, target_path(m, kind), spine_tier(m.tier)))
            } else {
                None
            },
            None => None,
        },
        None => match first_accepting(ms, kind) {
            Some(m) => Some((m.repo_name@, target_path(m, kind), spine_tier(m.tier))),
            None => None,
        },
    }
}

/// The message when `kind` resolves to no repo.
pub open spec fn resolve_error(kind: Seq<char>, repo_override: Option<Seq<char>>) -> Seq<char> {
    match repo_override {
        Some(repo) => "Repo '"@ + repo + "' does not accept objectKind '"@ + kind + "'"@,
        None => "No repo manifest accepts objectKind '"@ + kind + "'"@,
    }
}

/// Resolve target repo, path and tier for `object_kind`: the override repo
/// if it accepts the kind (an error if it does not), otherwise the first
/// manifest that accepts it (an error if none does).
pub fn resolve_target(object_kind: &str, repo_override: Option<&str>, manifests: &[RepoManifest], config: &Config) -> (r: Result<(String, String, Tier), Error>)
    ensures
        match resolved(object_kind@, opt_str(repo_override), manifests@) {
            Some((name, path, tier)) => r matches Ok((n, p, t)) && n@ == name && p@ == path && t == tier,
            None => r matches Err(Error::Config { message, path }) && message@ == resolve_error(object_kind@, opt_str(repo_override))
                && path@ == config.spec_root(),
        },
{
    if let Some(repo) = repo_override {
        if let Some(i) = find_manifest_named(manifests, repo) {
            let m = &manifests[i];
            if m.allows_object_kind(object_kind) {
                return Ok((String::from_str(repo), path_for(m, object_kind), to_spine_tier(m.tier)));
            }
        }
        let mut message = String::from_str("Repo '");
        message.append(repo);
        message.append("' does not accept objectKind '");
        message.append(object_kind);
        message.append("'");
        return Err(Error::Config { message, path: String::from_str(config.root()) });
    }
    let mut i: usize = 0;
    assert(manifests@.skip(0) =~= manifests@);
    while i < manifests.len()
        invariant
            i <= manifests@.len(),
            repo_override is None,
            first_accepting(manifests@, object_kind@) == first_accepting(manifests@.skip(i as int), object_kind@),
        decreases manifests@.len() - i,
    {
        assert(manifests@.skip(i as int).drop_first() =~= manifests@.skip(i + 1));
        assert(manifests@.skip(i as int)[0] == manifests@[i as int]);
        let m = &manifests[i];
        if m.allows_object_kind(object_kind) {
            return Ok((m.repo_name.clone(), path_for(m, object_kind), to_spine_tier(m.tier)));
        }
        i = i + 1;
    }
    let mut message = String::from_str("No repo manifest accepts objectKind '");
    message.append(object_kind);
    message.append("'");
    Err(Error::Config { message, path: String::from_str(config.root()) })
}

/// The default phase of an object kind at a tier: Bundles2 for every kind
/// and tier in this version.
pub fn determine_default_phase(object_kind: &str, tier: Tier) -> (r: Phase)
    ensures
        r == Phase::Bundles2,
{
    match tier {
        Tier::T1 => Phase::Bundles2,
        Tier::T2 => Phase::Bundles2,
        Tier::T3 => Phase::Bundles2,
    }
}

/// The common validation pitfalls of an object kind.
pub open spec fn pitfalls(kind: Seq<char>) -> Seq<Seq<char>> {
    if kind == "moodContract"@ {
        seq![
            "DET must be within tier-specific range (Tier 1: 0-7, Tier 2: 0-10)"@,
            "ARR floor is 0.5 for spawn tileClass, 0.4 for battlefront"@,
            "SHCI must reference valid invariant bundle from Black-Archivum"@,
        ]
    } else if kind == "eventContract"@ {
        seq![
            "Stage modulation deltas must sum to zero across all stages"@,
            "preconditions must reference valid invariant names"@,
            "telemetryHooks cannot be empty for intensity_band >= 7"@,
        ]
    } else if kind == "regionContractCard"@ {
        seq![
            "spatialGradients must define decay and center for each invariant"@,
            "registryReady must be false for new regions"@,
            "SHCI coupling must reference valid historical events"@,
        ]
    } else if kind == "seedContractCard"@ {
        seq![
            "intensityBand must be 0-10; values >= 8 require deadledgerref"@,
            "pacingTemplate must be one of: slow_burn, sudden_rupture, escalating"@,
            "bundleref must point to valid Black-Archivum invariant bundle"@,
        ]
    } else {
        seq![]
    }
}

fn three(a: &str, b: &str, c: &str) -> (r: Vec<String>)
    ensures
        views(r@) == seq![a@, b@, c@],
{
    let r = vec![String::from_str(a), String::from_str(b), String::from_str(c)];
    proof {
        assert(views(r@) =~= seq![a@, b@, c@]);
    }
    r
}

/// The common validation pitfalls of an object kind.
pub fn common_pitfalls_for(object_kind: &str) -> (r: Vec<String>)
    ensures
        views(r@) == pitfalls(object_kind@),
{
    if str_eq(object_kind, "moodContract") {
        three(
            "DET must be within tier-specific range (Tier 1: 0-7, Tier 2: 0-10)",
            "ARR floor is 0.5 for spawn tileClass, 0.4 for battlefront",
            "SHCI must reference valid invariant bundle from Black-Archivum",
        )
    } else if str_eq(object_kind, "eventContract") {
        three(
            "Stage modulation deltas must sum to zero across all stages",
            "preconditions must reference valid invariant names",
            "telemetryHooks cannot be empty for intensity_band >= 7",
        )
    } else if str_eq(object_kind, "regionContractCard") {
        three(
            "spatialGradients must define decay and center for each invariant",
            "registryReady must be false for new regions",
            "SHCI coupling must reference valid historical events",
        )
    } else if str_eq(object_kind, "seedContractCard") {
        three(
            "intensityBand must be 0-10; values >= 8 require deadledgerref",
            "pacingTemplate must be one of: slow_burn, sudden_rupture, escalating",
            "bundleref must point to valid Black-Archivum invariant bundle",
        )
    } else {
        let r: Vec<String> = Vec::new();
        proof {
            assert(views(r@) =~= Seq::<Seq<char>>::empty());
        }
        r
    }
}


/// The spine's safe default bands for `kind` at `tier`, if it declares them.
pub open spec fn safe_bands(spine: SchemaSpine, kind: Seq<char>, tier: Tier) -> Option<DefaultBands> {
    match lookup(spine.safe_defaults@, kind) {
        Some(by) => lookup_tier(by.by_tier@, tier),
        None => None,
    }
}

/// The guide for `kind` at `tier`: the spine's safe bands and the kind's pitfalls.
pub open spec fn guide_ok(g: GenerationGuide, spine: SchemaSpine, kind: Seq<char>, tier: Tier) -> bool {
    &&& match safe_bands(spine, kind, tier) {
        Some(b) => g.invariant_ranges@ == b.invariants@ && g.metric_targets@ == b.metrics@,
        None => g.invariant_ranges@.len() == 0 && g.metric_targets@.len() == 0,
    }
    &&& g.suggested_archetypes@.len() == 0
    &&& views(g.common_pitfalls@) == pitfalls(kind)
    &&& g.example_referenced_ids@.len() == 0
}

/// Name and value of each named value.
pub open spec fn value_views(v: Seq<(String, u64)>) -> Seq<(Seq<char>, u64)> {
    v.map_values(|p: (String, u64)| (p.0@, p.1))
}

/// The default value of each band: its lower bound, which lies in the band.
pub open spec fn band_lows(v: Seq<(String, NumericRange)>) -> Seq<(Seq<char>, u64)> {
    v.map_values(|p: (String, NumericRange)| (p.0@, p.1.min))
}

/// The intended invariant and metric values injected for `kind` at `tier`:
/// the lower bound of each of the spine's safe bands, none without bands.
pub open spec fn injected_defaults(spine: SchemaSpine, kind: Seq<char>, tier: Tier) -> (Seq<(Seq<char>, u64)>, Seq<(Seq<char>, u64)>) {
    match safe_bands(spine, kind, tier) {
        Some(b) => (band_lows(b.invariants@), band_lows(b.metrics@)),
        None => (seq![], seq![]),
    }
}

/// The lower bound of each band, by name.
fn lows_of(v: &Vec<(String, NumericRange)>) -> (r: Vec<(String, u64)>)
    ensures
        value_views(r@) == band_lows(v@),
{
    let mut r: Vec<(String, u64)> = Vec::new();
    let mut i: usize = 0;
    while i < v.len()
        invariant
            i <= v.len(),
            value_views(r@) == band_lows(v@.take(i as int)),
        decreases v.len() - i,
    {
        let ghost before = r@;
        r.push((v[i].0.clone(), v[i].1.min));
        proof {
            assert(v@.take(i + 1) =~= v@.take(i as int).push(v@[i as int]));
            assert(value_views(r@) =~= value_views(before).push((v@[i as int].0@, v@[i as int].1.min)));
            assert(band_lows(v@.take(i + 1)) =~= band_lows(v@.take(i as int)).push((v@[i as int].0@, v@[i as int].1.min)));
        }
        i = i + 1;
    }
    proof {
        assert(v@.take(v.len() as int) =~= v@);
    }
    r
}

/// Normalize a prompt into an authoring request.
///
/// The object kind and candidate kinds come from the prompt (see
/// `kind_choice`), the target from the manifests (see `resolve_target`), the
/// phase is Bundles2. The dotted identifiers the prompt mentions become the
/// referenced ids, and the spine's safe defaults for the kind and tier are
/// injected as intended values (see `injected_defaults`). The spine carries
/// no per-kind schema URI, so the schema reference is empty. Kinds the spine
/// knows get a generation guide.
pub fn run(prompt: &str, target_repo_override: Option<&str>, config: &Config, spine: &SchemaSpine, manifests: &[RepoManifest]) -> (r: Result<PlanResult, Error>)
    ensures
        match kind_choice(prompt@, spine.contract_families@) {
            None => r matches Err(Error::Internal { message }) && message@ == "Could not determine objectKind from prompt: "@ + prompt@,
            Some((kind, cands)) => match resolved(kind, opt_str(target_repo_override), manifests@) {
                None => r matches Err(Error::Config { message, path }) && message@ == resolve_error(kind, opt_str(target_repo_override))
                    && path@ == config.spec_root(),
                Some((repo, path, tier)) => r matches Ok(p) && {
                    let q = p.request;
                    &&& q.schema_ref@.len() == 0
                    &&& q.intent@ == prompt@
                    &&& q.object_kind@ == kind
                    &&& views(q.candidate_kinds@) == cands
                    &&& views(p.candidate_kinds@) == cands
                    &&& q.target_repo@ == repo
                    &&& q.target_path@ == path
                    &&& q.phase == Phase::Bundles2
                    &&& q.tier == tier
                    &&& views(q.referenced_ids@) == referenced_ids_in(prompt@)
                    &&& q.shci_bands is None
                    &&& value_views(q.intended_invariants@) == injected_defaults(*spine, kind, tier).0
                    &&& value_views(q.intended_metrics@) == injected_defaults(*spine, kind, tier).1
                    &&& q.extra_guidance is None
                    &&& q.agent_profile_id is None
                    &&& (p.generation_guide is Some <==> kind_known(spine.contract_families@, kind))
                    &&& (p.generation_guide matches Some(g) ==> guide_ok(g, *spine, kind, tier))
                },
            },
        },
{
    let (object_kind, candidate_kinds) = match extract_object_kind_from_prompt(prompt, spine) {
        Ok(x) => x,
        Err(e) => return Err(e),
    };
    let (target_repo, target_path, tier) = match resolve_target(object_kind.as_str(), target_repo_override, manifests, config) {
        Ok(x) => x,
        Err(e) => return Err(e),
    };
    let phase = determine_default_phase(object_kind.as_str(), tier);
    let bands = spine.safe_defaults_for(object_kind.as_str(), tier);
    let (intended_invariants, intended_metrics) = match &bands {
        Some(b) => (lows_of(&b.invariants), lows_of(&b.metrics)),
        None => {
            let a: Vec<(String, u64)> = Vec::new();
            let m: Vec<(String, u64)> = Vec::new();
            proof {
                assert(value_views(a@) =~= Seq::<(Seq<char>, u64)>::empty());
                assert(value_views(m@) =~= Seq::<(Seq<char>, u64)>::empty());
            }
            (a, m)
        },
    };
    let generation_guide = if spine.describe_object_kind(object_kind.as_str()).is_some() {
        let (invariant_ranges, metric_targets) = match bands {
            Some(b) => (b.invariants, b.metrics),
            None => (Vec::new(), Vec::new()),
        };
        Some(GenerationGuide {
            invariant_ranges,
            metric_targets,
            suggested_archetypes: Vec::new(),
            common_pitfalls: common_pitfalls_for(object_kind.as_str()),
            example_referenced_ids: Vec::new(),
        })
    } else {
        None
    };
    let referenced_ids = extract_referenced_ids(prompt);
    let request = AiAuthoringRequest {
        schema_ref: String::new(),
        intent: String::from_str(prompt),
        object_kind,
        candidate_kinds: crate::text::clone_strings(&candidate_kinds),
        target_repo,
        target_path,
        phase,
        tier,
        referenced_ids,
        shci_bands: None,
        intended_invariants,
        intended_metrics,
        extra_guidance: None,
        agent_profile_id: None,
    };
    Ok(PlanResult { request, generation_guide, candidate_kinds })
}

proof fn lemma_first_accepting_member(ms: Seq<RepoManifest>, kind: Seq<char>)
    ensures
        first_accepting(ms, kind) matches Some(m) ==> exists|i: int| 0 <= i < ms.len() && ms[i] == m && allows_kind(m, kind),
    decreases ms.len(),
{
    if ms.len() > 0 && !allows_kind(ms[0], kind) {
        lemma_first_accepting_member(ms.drop_first(), kind);
        if let Some(m) = first_accepting(ms, kind) {
            let i = choose|i: int| 0 <= i < ms.drop_first().len() && ms.drop_first()[i] == m && allows_kind(m, kind);
            assert(ms[i + 1] == m);
        }
    } else if ms.len() > 0 {
        assert(ms[0] == ms[0]);
    }
}

proof fn lemma_manifest_named_member(ms: Seq<RepoManifest>, name: Seq<char>)
    ensures
        manifest_named(ms, name) matches Some(m) ==> exists|i: int| 0 <= i < ms.len() && ms[i] == m,
    decreases ms.len(),
{
    if ms.len() > 0 && ms[0].repo_name@ != name {
        lemma_manifest_named_member(ms.drop_first(), name);
        if let Some(m) = manifest_named(ms, name) {
            let i = choose|i: int| 0 <= i < ms.drop_first().len() && ms.drop_first()[i] == m;
            assert(ms[i + 1] == m);
        }
    } else if ms.len() > 0 {
        assert(ms[0] == ms[0]);
    }
}

/// Planning targets only repos that accept the kind: a resolved target names
/// a manifest that accepts the object kind, and its path and tier are that
/// manifest's.
pub proof fn lemma_resolved_repo_accepts(kind: Seq<char>, repo_override: Option<Seq<char>>, ms: Seq<RepoManifest>)
    ensures
        resolved(kind, repo_override, ms) matches Some((repo, path, tier)) ==> exists|i: int|
            0 <= i < ms.len() && ms[i].repo_name@ == repo && allows_kind(ms[i], kind) && path == target_path(ms[i], kind)
                && tier == spine_tier(ms[i].tier),
{
    match repo_override {
        Some(repo) => {
            crate::director::phases::lemma_manifest_named_has_name(ms, repo);
            lemma_manifest_named_member(ms, repo);
        },
        None => {
            lemma_first_accepting_member(ms, kind);
        },
    }
}

} // verus!
