//! Bounded diagnostics that describe why a decision workspace was refused.

use vstd::prelude::*;

verus! {

/// At most this many diagnostics are kept for one refusal.
pub const MAX_DIAGNOSTICS: usize = 32;

/// Why one model (or the workspace as a whole, when `decision_id` is
/// `None`) was refused. It names no host path and no model content.
#[derive(Debug, Clone, PartialEq, Eq)]
pub struct Diagnostic {
    pub decision_id: Option<String>,
    pub code: String,
}

/// The value of a diagnostic.
pub struct DiagnosticView {
    pub decision_id: Option<Seq<char>>,
    pub code: Seq<char>,
}

/// The view of an optional string.
pub open spec fn opt_string_view(s: Option<String>) -> Option<Seq<char>> {
    match s {
        Some(x) => Some(x@),
        None => None,
    }
}

impl View for Diagnostic {
    type V = DiagnosticView;

    open spec fn view(&self) -> DiagnosticView {
        DiagnosticView { decision_id: opt_string_view(self.decision_id), code: self.code@ }
    }
}

/// The views of a sequence of diagnostics.
pub open spec fn diagnostics_view(d: Seq<Diagnostic>) -> Seq<DiagnosticView> {
    Seq::new(d.len(), |i: int| d[i]@)
}

/// The list after recording a diagnostic: it is appended while fewer than
/// the maximum are held, and dropped otherwise.
pub open spec fn spec_push_diagnostic(
    d: Seq<DiagnosticView>,
    decision_id: Option<Seq<char>>,
    code: Seq<char>,
) -> Seq<DiagnosticView> {
    if d.len() < MAX_DIAGNOSTICS {
        d.push(DiagnosticView { decision_id, code })
    } else {
        d
    }
}

/// A copy of an optional string.
fn copy_opt_string(s: &Option<String>) -> (r: Option<String>)
    ensures
        opt_string_view(r) == opt_string_view(*s),
{
    match s {
        Some(x) => Some(x.clone()),
        None => None,
    }
}

/// A copy of a diagnostic.
pub fn copy_diagnostic(d: &Diagnostic) -> (r: Diagnostic)
    ensures
        r@ == d@,
{
    Diagnostic { decision_id: copy_opt_string(&d.decision_id), code: d.code.clone() }
}

/// Records a diagnostic, keeping at most `MAX_DIAGNOSTICS`.
pub fn push_diagnostic(diagnostics: &mut Vec<Diagnostic>, decision_id: Option<String>, code: &str)
    ensures
        diagnostics_view(final(diagnostics)@) == spec_push_diagnostic(
            diagnostics_view(old(diagnostics)@),
            opt_string_view(decision_id),
            code@,
        ),
{
    if diagnostics.len() < MAX_DIAGNOSTICS {
        let ghost before = diagnostics_view(diagnostics@);
        let ghost id_view = opt_string_view(decision_id);
        diagnostics.push(Diagnostic { decision_id, code: code.to_owned() });
        assert(diagnostics_view(diagnostics@) =~= before.push(
            DiagnosticView { decision_id: id_view, code: code@ },
        ));
    }
}

/// A refused workspace, with its diagnostics.
#[derive(Debug)]
pub struct RegistryLoadError {
    pub diagnostics: Vec<Diagnostic>,
}

impl RegistryLoadError {
    /// A refusal with a single workspace-level diagnostic.
    pub fn one(code: &str) -> (r: RegistryLoadError)
        ensures
            diagnostics_view(r.diagnostics@) == seq![DiagnosticView { decision_id: None, code: code@ }],
    {
        let mut diagnostics: Vec<Diagnostic> = Vec::new();
        diagnostics.push(Diagnostic { decision_id: None, code: code.to_owned() });
        assert(diagnostics_view(diagnostics@) =~= seq![
            DiagnosticView { decision_id: None, code: code@ },
        ]);
        RegistryLoadError { diagnostics }
    }
}

} // verus!
