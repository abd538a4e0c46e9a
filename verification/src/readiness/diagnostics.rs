//! Readiness issues as verification diagnostics for editors and CI.
use vstd::prelude::*;
use crate::fault_impact::ReadinessIssue;
use crate::readiness::severity::{severity_label, spec_severity_label};
use crate::text::{ascii_lower, concat2, to_ascii_lower};

verus! {

/// A diagnostic anchored at a line and column.
#[derive(Debug, Clone, PartialEq, Eq)]
pub struct VerificationDiagnostic {
    pub message: String,
    pub line: u32,
    pub column: u32,
    pub severity: String,
    pub category: String,
    pub suggested_fix: Option<String>,
}

/// A diagnostic as plain values.
pub type DiagnosticView = (Seq<char>, u32, u32, Seq<char>, Seq<char>, Option<Seq<char>>);

pub open spec fn diagnostic_view(d: VerificationDiagnostic) -> DiagnosticView {
    (d.message@, d.line, d.column, d.severity@, d.category@, match d.suggested_fix {
        Some(f) => Some(f@),
        None => None,
    })
}

/// The diagnostic of a readiness issue: its message at line 1, column 1,
/// the severity's diagnostic label, the category `readiness:<factor in
/// ASCII lowercase>`, and the suggested action as the fix.
pub open spec fn issue_diagnostic(i: ReadinessIssue) -> DiagnosticView {
    (i.message@, 1u32, 1u32, spec_severity_label(i.severity), "readiness:"@ + ascii_lower(i.factor@), match i.suggested_action {
        Some(a) => Some(a@),
        None => None,
    })
}

/// One diagnostic per readiness issue, in order.
pub fn collect_readiness_diagnostics(issues: &[ReadinessIssue]) -> (r: Vec<VerificationDiagnostic>)
    ensures
        r@.map_values(|d: VerificationDiagnostic| diagnostic_view(d)) == issues@.map_values(
            |i: ReadinessIssue| issue_diagnostic(i),
        ),
{
    let mut out: Vec<VerificationDiagnostic> = Vec::new();
    let mut k: usize = 0;
    while k < issues.len()
        invariant
            k <= issues.len(),
            out@.map_values(|d: VerificationDiagnostic| diagnostic_view(d)) == issues@.take(k as int).map_values(
                |i: ReadinessIssue| issue_diagnostic(i),
            ),
        decreases issues.len() - k,
    {
        let issue = &issues[k];
        let factor = to_ascii_lower(issue.factor.as_str());
        let fix = match &issue.suggested_action {
            Some(a) => Some(a.as_str().to_owned()),
            None => None,
        };
        let d = VerificationDiagnostic {
            message: issue.message.as_str().to_owned(),
            line: 1,
            column: 1,
            severity: severity_label(issue.severity).to_owned(),
            category: concat2("readiness:", factor.as_str()),
            suggested_fix: fix,
        };
        let ghost before = out@.map_values(|d: VerificationDiagnostic| diagnostic_view(d));
        let ghost dv = diagnostic_view(d);
        out.push(d);
        assert(dv == issue_diagnostic(issues@[k as int]));
        assert(out@.map_values(|d: VerificationDiagnostic| diagnostic_view(d)) =~= before.push(dv));
        assert(issues@.take(k + 1).map_values(|i: ReadinessIssue| issue_diagnostic(i)) =~= issues@.take(
            k as int,
        ).map_values(|i: ReadinessIssue| issue_diagnostic(i)).push(issue_diagnostic(issues@[k as int])));
        k = k + 1;
    }
    assert(issues@.take(issues.len() as int) =~= issues@);
    out
}

} // verus!
