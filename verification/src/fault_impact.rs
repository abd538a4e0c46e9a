//! What detected runtime faults do to a readiness report, and the fault
//! counts behind reliability evidence.
use vstd::prelude::*;
use crate::faults::{fault_readiness_impact, spec_readiness_impact, RuntimeFaultKind, RuntimeHealthStatus};
use crate::readiness::severity::ReadinessSeverity;
use crate::text::str_eq;

verus! {

/// Overall readiness of a program.
#[derive(Debug, Clone, Copy, PartialEq, Eq, Structural)]
pub enum ReadinessStatus {
    Ready,
    Degraded,
    NotReady,
}

/// One readiness issue.
#[derive(Debug, Clone)]
pub struct ReadinessIssue {
    pub factor: String,
    pub severity: ReadinessSeverity,
    pub message: String,
    pub suggested_action: Option<String>,
}

/// The score of one readiness factor.
#[derive(Debug, Clone)]
pub struct ReadinessFactorScore {
    pub factor: String,
    pub score: u32,
}

/// The parts of a readiness report that runtime faults change.
#[derive(Debug, Clone)]
pub struct ReadinessReport {
    pub status: ReadinessStatus,
    pub issues: Vec<ReadinessIssue>,
    pub factors: Vec<ReadinessFactorScore>,
}

/// What the readiness impact reads of a detected fault.
#[derive(Debug, Clone)]
pub struct FaultSummary {
    pub kind: RuntimeFaultKind,
    pub status: RuntimeHealthStatus,
    pub message: String,
}

pub open spec fn issue_view(i: ReadinessIssue) -> (Seq<char>, ReadinessSeverity, Seq<char>, Option<Seq<char>>) {
    (i.factor@, i.severity, i.message@, match i.suggested_action {
        Some(a) => Some(a@),
        None => None,
    })
}

pub open spec fn issue_views(s: Seq<ReadinessIssue>) -> Seq<(Seq<char>, ReadinessSeverity, Seq<char>, Option<Seq<char>>)> {
    s.map_values(|i: ReadinessIssue| issue_view(i))
}

/// One runtime issue per fault, in order, with the fault's severity and
/// suggested action.
pub open spec fn fault_issues(fs: Seq<FaultSummary>) -> Seq<(Seq<char>, ReadinessSeverity, Seq<char>, Option<Seq<char>>)> {
    fs.map_values(
        |f: FaultSummary|
            ("Runtime"@, spec_readiness_impact(f.status).0, f.message@, Some(spec_readiness_impact(f.status).1)),
    )
}

pub open spec fn any_fault(fs: Seq<FaultSummary>, p: spec_fn(FaultSummary) -> bool) -> bool {
    exists|i: int| 0 <= i < fs.len() && p(#[trigger] fs[i])
}

/// A crash or restart loop that left the runtime critical.
pub open spec fn blocking(f: FaultSummary) -> bool {
    (f.kind is RestartLoop || f.kind is ProcessCrash) && f.status is Critical
}

/// The readiness status after the faults: not ready after a blocking fault;
/// otherwise a ready program is degraded by any fault at least degraded.
pub open spec fn status_after(status: ReadinessStatus, fs: Seq<FaultSummary>) -> ReadinessStatus {
    if any_fault(fs, |f: FaultSummary| blocking(f)) {
        ReadinessStatus::NotReady
    } else if any_fault(fs, |f: FaultSummary| f.status.rank() >= RuntimeHealthStatus::Degraded.rank())
        && status is Ready {
        ReadinessStatus::Degraded
    } else {
        status
    }
}

/// `fs[i]` is the first factor named `Health`.
pub open spec fn first_health(fs: Seq<ReadinessFactorScore>, i: int) -> bool {
    0 <= i < fs.len() && fs[i].factor@ == "Health"@ && forall|j: int| 0 <= j < i ==> (#[trigger] fs[j]).factor@ != "Health"@
}

/// The factor scores after a memory leak: the first `Health` factor loses
/// 15 points (not below 0).
pub open spec fn factors_after_leak(old: Seq<ReadinessFactorScore>, new: Seq<ReadinessFactorScore>) -> bool {
    &&& new.len() == old.len()
    &&& forall|i: int|
        0 <= i < old.len() ==> (#[trigger] new[i]).factor@ == old[i].factor@ && new[i].score == if first_health(old, i) {
            if old[i].score >= 15 {
                (old[i].score - 15) as u32
            } else {
                0u32
            }
        } else {
            old[i].score
        }
}

fn first_health_index(fs: &Vec<ReadinessFactorScore>) -> (r: Option<usize>)
    ensures
        match r {
            Some(i) => first_health(fs@, i as int),
            None => forall|j: int| 0 <= j < fs@.len() ==> (#[trigger] fs@[j]).factor@ != "Health"@,
        },
{
    let mut k: usize = 0;
    while k < fs.len()
        invariant
            k <= fs.len(),
            forall|j: int| 0 <= j < k ==> (#[trigger] fs@[j]).factor@ != "Health"@,
        decreases fs.len() - k,
    {
        if str_eq(fs[k].factor.as_str(), "Health") {
            return Some(k);
        }
        k = k + 1;
    }
    None
}

fn push_issue(issues: &mut Vec<ReadinessIssue>, severity: ReadinessSeverity, message: String, action: String)
    ensures
        issue_views(final(issues)@) == issue_views(old(issues)@).push(("Runtime"@, severity, message@, Some(action@))),
{
    let ghost before = issue_views(issues@);
    issues.push(ReadinessIssue { factor: "Runtime".to_owned(), severity, message, suggested_action: Some(action) });
    assert(issue_views(issues@) =~= before.push(("Runtime"@, severity, message@, Some(action@))));
}

/// Lower readiness for detected runtime faults: an issue per fault, the
/// status lowered, the health score cut after a memory leak, and an issue
/// for an unexpected reboot.
pub fn apply_fault_readiness_impact(report: &mut ReadinessReport, faults: &Vec<FaultSummary>)
    ensures
        issue_views(final(report).issues@) == issue_views(old(report).issues@) + fault_issues(faults@) + if any_fault(
            faults@,
            |f: FaultSummary| f.kind is UnexpectedReboot,
        ) {
            seq![
                (
                    "Runtime"@,
                    ReadinessSeverity::High,
                    "Unexpected reboot requires operator review before deployment"@,
                    Some("Run post-reboot diagnostics"@),
                ),
            ]
        } else {
            Seq::empty()
        },
        final(report).status == status_after(old(report).status, faults@),
        if any_fault(faults@, |f: FaultSummary| f.kind is MemoryLeak) {
            factors_after_leak(old(report).factors@, final(report).factors@)
        } else {
            final(report).factors@ == old(report).factors@
        },
{
    let ghost start = issue_views(report.issues@);
    let ghost s0 = report.status;
    let ghost f0 = report.factors@;
    let mut blocked = false;
    let mut degraded = false;
    let mut leak = false;
    let mut reboot = false;
    let mut i: usize = 0;
    while i < faults.len()
        invariant
            i <= faults.len(),
            report.status == s0,
            report.factors@ == f0,
            issue_views(report.issues@) == start + fault_issues(faults@.take(i as int)),
            blocked == exists|k: int| 0 <= k < i && blocking(#[trigger] faults@[k]),
            degraded == exists|k: int| 0 <= k < i && (#[trigger] faults@[k]).status.rank() >= RuntimeHealthStatus::Degraded.rank(),
            leak == exists|k: int| 0 <= k < i && (#[trigger] faults@[k]).kind is MemoryLeak,
            reboot == exists|k: int| 0 <= k < i && (#[trigger] faults@[k]).kind is UnexpectedReboot,
        decreases faults.len() - i,
    {
        let f = &faults[i];
        let (severity, action) = fault_readiness_impact(f.status);
        let ghost before = issue_views(report.issues@);
        push_issue(&mut report.issues, severity, f.message.clone(), action);
        assert(fault_issues(faults@.take(i + 1)) =~= fault_issues(faults@.take(i as int)).push(
            ("Runtime"@, spec_readiness_impact(f.status).0, f.message@, Some(spec_readiness_impact(f.status).1)),
        ));
        let crash_or_loop = match f.kind {
            RuntimeFaultKind::RestartLoop | RuntimeFaultKind::ProcessCrash => true,
            _ => false,
        };
        let critical = match f.status {
            RuntimeHealthStatus::Critical => true,
            _ => false,
        };
        blocked = blocked || (crash_or_loop && critical);
        degraded = degraded || f.status.severity_rank() >= 2;
        leak = leak || match f.kind {
            RuntimeFaultKind::MemoryLeak => true,
            _ => false,
        };
        reboot = reboot || match f.kind {
            RuntimeFaultKind::UnexpectedReboot => true,
            _ => false,
        };
        i = i + 1;
    }
    assert(faults@.take(faults.len() as int) =~= faults@);
    assert(blocked == any_fault(faults@, |f: FaultSummary| blocking(f)));
    assert(degraded == any_fault(faults@, |f: FaultSummary| f.status.rank() >= RuntimeHealthStatus::Degraded.rank()));
    assert(leak == any_fault(faults@, |f: FaultSummary| f.kind is MemoryLeak));
    assert(reboot == any_fault(faults@, |f: FaultSummary| f.kind is UnexpectedReboot));
    if blocked {
        report.status = ReadinessStatus::NotReady;
    } else if degraded {
        if report.status == ReadinessStatus::Ready {
            report.status = ReadinessStatus::Degraded;
        }
    }
    if leak {
        match first_health_index(&report.factors) {
            Some(k) => {
                let s = report.factors[k].score;
                let cut: u32 = if s >= 15 { s - 15 } else { 0 };
                let name = report.factors[k].factor.clone();
                report.factors.set(k, ReadinessFactorScore { factor: name, score: cut });
                proof {
                    assert forall|j: int| 0 <= j < f0.len() && j != k implies !first_health(f0, j) by {
                        if j > k {
                            assert(f0[k as int].factor@ == "Health"@);
                        }
                    }
                }
            },
            None => {},
        }
    }
    if reboot {
        push_issue(
            &mut report.issues,
            ReadinessSeverity::High,
            "Unexpected reboot requires operator review before deployment".to_owned(),
            "Run post-reboot diagnostics".to_owned(),
        );
    }
}


/// A fault that ended a process: a crash or a panic.
pub open spec fn is_crash(k: RuntimeFaultKind) -> bool {
    k is ProcessCrash || k is RuntimePanic || k is ProviderCrash || k is PackageCrash
}

/// A fault that restarted the machine.
pub open spec fn is_reboot(k: RuntimeFaultKind) -> bool {
    k is UnexpectedReboot || k is OsReboot
}

/// The number of faults of the kinds `p` picks.
pub open spec fn count_kinds(ks: Seq<RuntimeFaultKind>, p: spec_fn(RuntimeFaultKind) -> bool) -> nat
    decreases ks.len(),
{
    if ks.len() == 0 {
        0
    } else {
        count_kinds(ks.drop_last(), p) + if p(ks.last()) { 1nat } else { 0nat }
    }
}

proof fn lemma_count_kinds_le(ks: Seq<RuntimeFaultKind>, p: spec_fn(RuntimeFaultKind) -> bool)
    ensures
        count_kinds(ks, p) <= ks.len(),
    decreases ks.len(),
{
    if ks.len() > 0 {
        lemma_count_kinds_le(ks.drop_last(), p);
    }
}

/// The crash count, the reboot count and whether memory stayed stable (no
/// leak) among detected faults, for reliability evidence.
pub fn fault_counts(kinds: &Vec<RuntimeFaultKind>) -> (r: (u32, u32, bool))
    requires
        kinds@.len() <= u32::MAX,
    ensures
        r.0 == count_kinds(kinds@, |k: RuntimeFaultKind| is_crash(k)),
        r.1 == count_kinds(kinds@, |k: RuntimeFaultKind| is_reboot(k)),
        r.2 == !exists|i: int| 0 <= i < kinds@.len() && (#[trigger] kinds@[i]) is MemoryLeak,
{
    let ghost crash = |k: RuntimeFaultKind| is_crash(k);
    let ghost reboot = |k: RuntimeFaultKind| is_reboot(k);
    let mut crashes: u32 = 0;
    let mut reboots: u32 = 0;
    let mut stable = true;
    let mut i: usize = 0;
    assert(kinds@.take(0) =~= Seq::<RuntimeFaultKind>::empty());
    while i < kinds.len()
        invariant
            i <= kinds.len(),
            kinds@.len() <= u32::MAX,
            crash == |k: RuntimeFaultKind| is_crash(k),
            reboot == |k: RuntimeFaultKind| is_reboot(k),
            crashes == count_kinds(kinds@.take(i as int), crash),
            reboots == count_kinds(kinds@.take(i as int), reboot),
            stable == !exists|j: int| 0 <= j < i && (#[trigger] kinds@[j]) is MemoryLeak,
        decreases kinds.len() - i,
    {
        assert(kinds@.take(i + 1).drop_last() =~= kinds@.take(i as int));
        proof {
            lemma_count_kinds_le(kinds@.take(i as int), crash);
            lemma_count_kinds_le(kinds@.take(i as int), reboot);
        }
        match kinds[i] {
            RuntimeFaultKind::ProcessCrash | RuntimeFaultKind::RuntimePanic | RuntimeFaultKind::ProviderCrash
            | RuntimeFaultKind::PackageCrash => {
                crashes = crashes + 1;
            },
            RuntimeFaultKind::UnexpectedReboot | RuntimeFaultKind::OsReboot => {
                reboots = reboots + 1;
            },
            RuntimeFaultKind::MemoryLeak => {
                stable = false;
            },
            _ => {},
        }
        i = i + 1;
    }
    assert(kinds@.take(kinds.len() as int) =~= kinds@);
    (crashes, reboots, stable)
}

/// How far a status is from ready.
pub open spec fn status_level(s: ReadinessStatus) -> nat {
    match s {
        ReadinessStatus::Ready => 0,
        ReadinessStatus::Degraded => 1,
        ReadinessStatus::NotReady => 2,
    }
}

/// Runtime faults never make a program more ready, and a blocking fault
/// always makes it not ready.
pub proof fn law_faults_never_raise_readiness(status: ReadinessStatus, faults: Seq<FaultSummary>)
    ensures
        status_level(status_after(status, faults)) >= status_level(status),
        any_fault(faults, |f: FaultSummary| blocking(f)) ==> status_after(status, faults) == ReadinessStatus::NotReady,
        faults.len() == 0 ==> status_after(status, faults) == status,
{
}
/// A critical restart loop or a critical process crash always makes the
/// program not ready; without one, a program is not ready only if it
/// already was.
pub proof fn law_critical_crash_or_loop_blocks(status: ReadinessStatus, faults: Seq<FaultSummary>, k: int)
    ensures
        0 <= k < faults.len() && (faults[k].kind is RestartLoop || faults[k].kind is ProcessCrash)
            && faults[k].status is Critical ==> status_after(status, faults) == ReadinessStatus::NotReady,
        (forall|j: int|
            0 <= j < faults.len() ==> !((#[trigger] faults[j].kind is RestartLoop || faults[j].kind is ProcessCrash)
                && faults[j].status is Critical)) ==> (status_after(status, faults) is NotReady ==> status is NotReady),
{
    if 0 <= k < faults.len() && (faults[k].kind is RestartLoop || faults[k].kind is ProcessCrash)
        && faults[k].status is Critical {
        assert(blocking(faults[k]));
    }
    if forall|j: int|
        0 <= j < faults.len() ==> !((#[trigger] faults[j].kind is RestartLoop || faults[j].kind is ProcessCrash)
            && faults[j].status is Critical) {
        if any_fault(faults, |f: FaultSummary| blocking(f)) {
            let j = choose|j: int| 0 <= j < faults.len() && blocking(#[trigger] faults[j]);
            assert(!((faults[j].kind is RestartLoop || faults[j].kind is ProcessCrash) && faults[j].status is Critical));
        }
    }
}

} // verus!
