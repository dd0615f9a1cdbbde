//! Typed models of the schema spine, repo manifests, authoring requests and
//! responses, and the generic validation diagnostics.
use vstd::prelude::*;

pub mod spine_types;
pub mod manifest_types;
pub mod request_types;
pub mod response_types;
pub mod authoring_contract;

verus! {

/// Layer of a generic validation diagnostic.
#[derive(Debug, Clone, Copy, PartialEq, Eq, Structural)]
pub enum ValidationLayer {
    Schema,
    Invariants,
    Manifest,
    Envelope,
    Phase,
    Other,
}

/// Severity of a generic validation diagnostic.
#[derive(Debug, Clone, Copy, PartialEq, Eq, Structural)]
pub enum ValidationSeverity {
    Error,
    Warning,
    Info,
}

/// A validation error with remediation hints for AI tools.
#[derive(Debug, Clone)]
pub struct ValidationDiagnostic {
    pub layer: ValidationLayer,
    pub severity: ValidationSeverity,
    pub code: String,
    pub message: String,
    pub json_pointer: Option<String>,
    pub remediation: Option<String>,
}

/// Abstract value of a diagnostic.
pub type DiagnosticView = (ValidationLayer, ValidationSeverity, Seq<char>, Seq<char>, Option<Seq<char>>, Option<Seq<char>>);

/// The character view of an optional string.
pub open spec fn opt_view(o: Option<String>) -> Option<Seq<char>> {
    match o {
        Some(s) => Some(s@),
        None => None,
    }
}

impl View for ValidationDiagnostic {
    type V = DiagnosticView;

    open spec fn view(&self) -> DiagnosticView {
        (self.layer, self.severity, self.code@, self.message@, opt_view(self.json_pointer), opt_view(self.remediation))
    }
}

/// The views of a list of diagnostics.
pub open spec fn diagnostic_views(s: Seq<ValidationDiagnostic>) -> Seq<DiagnosticView> {
    s.map_values(|d: ValidationDiagnostic| d@)
}

/// Aggregated validation result.
#[derive(Debug, Clone)]
pub struct ValidationResult {
    pub ok: bool,
    pub diagnostics: Vec<ValidationDiagnostic>,
}

/// The diagnostics of severity `s`, in order.
pub open spec fn with_severity(ds: Seq<DiagnosticView>, s: ValidationSeverity) -> Seq<DiagnosticView> {
    ds.filter(|d: DiagnosticView| d.1 == s)
}

/// The rank of a severity: errors first, then warnings, then infos.
pub open spec fn severity_rank(s: ValidationSeverity) -> nat {
    match s {
        ValidationSeverity::Error => 0,
        ValidationSeverity::Warning => 1,
        ValidationSeverity::Info => 2,
    }
}

/// A copy of a diagnostic.
fn copy_diagnostic(d: &ValidationDiagnostic) -> (r: ValidationDiagnostic)
    ensures
        r@ == d@,
{
    ValidationDiagnostic {
        layer: d.layer,
        severity: d.severity,
        code: d.code.clone(),
        message: d.message.clone(),
        json_pointer: d.json_pointer.clone(),
        remediation: d.remediation.clone(),
    }
}

proof fn lemma_with_severity_push(s: Seq<DiagnosticView>, sev: ValidationSeverity, x: DiagnosticView)
    ensures
        with_severity(s.push(x), sev) == if x.1 == sev { with_severity(s, sev).push(x) } else { with_severity(s, sev) },
{
    reveal(Seq::filter);
    assert(s.push(x).drop_last() =~= s);
}

proof fn lemma_with_severity_all(ds: Seq<DiagnosticView>, sev: ValidationSeverity)
    ensures
        forall|i: int| 0 <= i < with_severity(ds, sev).len() ==> (#[trigger] with_severity(ds, sev)[i]).1 == sev,
    decreases ds.len(),
{
    reveal(Seq::filter);
    if ds.len() > 0 {
        lemma_with_severity_all(ds.drop_last(), sev);
    }
}

/// Appends copies of the diagnostics of severity `s`.
fn push_with_severity(out: &mut Vec<ValidationDiagnostic>, ds: &Vec<ValidationDiagnostic>, s: ValidationSeverity)
    ensures
        diagnostic_views(final(out)@) == diagnostic_views(old(out)@) + with_severity(diagnostic_views(ds@), s),
{
    let ghost start = diagnostic_views(out@);
    let mut i: usize = 0;
    while i < ds.len()
        invariant
            i <= ds.len(),
            diagnostic_views(out@) == start + with_severity(diagnostic_views(ds@).take(i as int), s),
        decreases ds.len() - i,
    {
        proof {
            let t = diagnostic_views(ds@).take(i + 1);
            assert(t.drop_last() =~= diagnostic_views(ds@).take(i as int));
            lemma_with_severity_push(diagnostic_views(ds@).take(i as int), s, ds@[i as int]@);
            assert(t =~= diagnostic_views(ds@).take(i as int).push(ds@[i as int]@));
        }
        if ds[i].severity == s {
            let c = copy_diagnostic(&ds[i]);
            let ghost before = out@;
            out.push(c);
            proof {
                assert(diagnostic_views(out@) =~= diagnostic_views(before).push(c@));
            }
        }
        i = i + 1;
    }
    proof {
        assert(diagnostic_views(ds@).take(ds.len() as int) =~= diagnostic_views(ds@));
    }
}

impl ValidationResult {
    /// Whether validation passed.
    pub fn is_ok(&self) -> (r: bool)
        ensures
            r == self.ok,
    {
        self.ok
    }

    /// The first error-severity diagnostic.
    pub fn first_error(&self) -> (r: Option<&ValidationDiagnostic>)
        ensures
            match r {
                None => forall|i: int| 0 <= i < self.diagnostics@.len()
                    ==> (#[trigger] self.diagnostics@[i]).severity != ValidationSeverity::Error,
                Some(d) => exists|i: int| 0 <= i < self.diagnostics@.len() && #[trigger] self.diagnostics@[i] == *d
                    && d.severity == ValidationSeverity::Error && forall|k: int| 0 <= k < i
                    ==> (#[trigger] self.diagnostics@[k]).severity != ValidationSeverity::Error,
            },
    {
        let ds = &self.diagnostics;
        let mut i: usize = 0;
        while i < ds.len()
            invariant
                i <= ds.len(),
                ds@ == self.diagnostics@,
                forall|k: int| 0 <= k < i ==> (#[trigger] ds@[k]).severity != ValidationSeverity::Error,
            decreases ds.len() - i,
        {
            if ds[i].severity == ValidationSeverity::Error {
                return Some(&ds[i]);
            }
            i = i + 1;
        }
        None
    }

    /// The diagnostics stably ordered by severity: errors, then warnings,
    /// then infos, each group in its original order.
    pub fn ranked_diagnostics(&self) -> (r: Vec<ValidationDiagnostic>)
        ensures
            diagnostic_views(r@) == with_severity(diagnostic_views(self.diagnostics@), ValidationSeverity::Error)
                + with_severity(diagnostic_views(self.diagnostics@), ValidationSeverity::Warning)
                + with_severity(diagnostic_views(self.diagnostics@), ValidationSeverity::Info),
    {
        let mut out: Vec<ValidationDiagnostic> = Vec::new();
        proof {
            assert(diagnostic_views(out@) =~= Seq::<DiagnosticView>::empty());
        }
        push_with_severity(&mut out, &self.diagnostics, ValidationSeverity::Error);
        push_with_severity(&mut out, &self.diagnostics, ValidationSeverity::Warning);
        push_with_severity(&mut out, &self.diagnostics, ValidationSeverity::Info);
        proof {
            let e = with_severity(diagnostic_views(self.diagnostics@), ValidationSeverity::Error);
            assert(Seq::<DiagnosticView>::empty() + e =~= e);
        }
        out
    }
}

proof fn lemma_partition_len(ds: Seq<DiagnosticView>)
    ensures
        with_severity(ds, ValidationSeverity::Error).len() + with_severity(ds, ValidationSeverity::Warning).len()
            + with_severity(ds, ValidationSeverity::Info).len() == ds.len(),
    decreases ds.len(),
{
    reveal(Seq::filter);
    if ds.len() > 0 {
        lemma_partition_len(ds.drop_last());
    }
}

/// Ranking keeps every diagnostic (the ranked list is as long as the
/// original) and orders them by severity.
pub proof fn lemma_ranked_is_sorted_arrangement(ds: Seq<DiagnosticView>)
    ensures
        ({
            let r = with_severity(ds, ValidationSeverity::Error) + with_severity(ds, ValidationSeverity::Warning)
                + with_severity(ds, ValidationSeverity::Info);
            &&& r.len() == ds.len()
            &&& forall|i: int, j: int| 0 <= i < j < r.len() ==> severity_rank(r[i].1) <= severity_rank(r[j].1)
        }),
{
    lemma_partition_len(ds);
    let e = with_severity(ds, ValidationSeverity::Error);
    let w = with_severity(ds, ValidationSeverity::Warning);
    let n = with_severity(ds, ValidationSeverity::Info);
    lemma_with_severity_all(ds, ValidationSeverity::Error);
    lemma_with_severity_all(ds, ValidationSeverity::Warning);
    lemma_with_severity_all(ds, ValidationSeverity::Info);
    let r = e + w + n;
    assert forall|i: int| 0 <= i < r.len() implies severity_rank(r[i].1) == if i < e.len() {
        0nat
    } else if i < e.len() + w.len() {
        1nat
    } else {
        2nat
    } by {
        if i < e.len() {
            assert(r[i] == e[i]);
        } else if i < e.len() + w.len() {
            assert(r[i] == w[i - e.len()]);
        } else {
            assert(r[i] == n[i - e.len() - w.len()]);
        }
    }
}

/// Routing explanation for AI tools.
#[derive(Debug, Clone)]
pub struct RouteExplanation {
    pub object_kind: String,
    pub tier: Option<String>,
    pub target_repo: String,
    pub target_path_hint: String,
    pub policy_notes: Vec<String>,
}

} // verus!
