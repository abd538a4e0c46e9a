//! Deployment gates: the go/no-go checks a program must pass before rollout.
use vstd::prelude::*;
use crate::text::{append_dec, bool_str, bool_text, dec_text, str_eq, texts};
use crate::readiness::severity::ReadinessSeverity;

verus! {

/// Named deployment gate with pass/fail outcome.
#[derive(Debug, Clone, PartialEq, Eq)]
pub struct DeploymentGate {
    pub name: String,
    pub passed: bool,
    pub message: String,
}

/// Deployment gate evaluation report.
#[derive(Debug, Clone, PartialEq, Eq)]
pub struct DeploymentGateReport {
    pub passed: bool,
    pub gates: Vec<DeploymentGate>,
}

/// Threshold policy for deployment gates.
#[derive(Debug, Clone, Copy, PartialEq, Eq, Structural)]
pub struct DeploymentGatePolicy {
    pub minimum_readiness_score: u32,
    pub require_safety_audit: bool,
    pub require_capability_traceability: bool,
    pub require_official_provenance: bool,
    pub require_registry_signatures: bool,
}

impl Default for DeploymentGatePolicy {
    fn default() -> (r: DeploymentGatePolicy)
        ensures
            r == (DeploymentGatePolicy {
                minimum_readiness_score: 80,
                require_safety_audit: true,
                require_capability_traceability: true,
                require_official_provenance: false,
                require_registry_signatures: false,
            }),
    {
        DeploymentGatePolicy {
            minimum_readiness_score: 80,
            require_safety_audit: true,
            require_capability_traceability: true,
            require_official_provenance: false,
            require_registry_signatures: false,
        }
    }
}

impl DeploymentGatePolicy {
    /// The production policy: a readiness score of at least 90 and every
    /// check required.
    pub fn production() -> (r: DeploymentGatePolicy)
        ensures
            r == (DeploymentGatePolicy {
                minimum_readiness_score: 90,
                require_safety_audit: true,
                require_capability_traceability: true,
                require_official_provenance: true,
                require_registry_signatures: true,
            }),
    {
        DeploymentGatePolicy {
            minimum_readiness_score: 90,
            require_safety_audit: true,
            require_capability_traceability: true,
            require_official_provenance: true,
            require_registry_signatures: true,
        }
    }
}

/// Finding counts of a safety audit.
#[derive(Debug, Clone, Copy, PartialEq, Eq, Structural)]
pub struct AuditCounts {
    pub critical: u64,
    pub high: u64,
    pub medium: u64,
    pub low: u64,
}

/// A configured package's trust evaluation.
#[derive(Debug, Clone)]
pub struct PackageTrust {
    pub package: String,
    pub score: u32,
    pub passed: bool,
}

/// The outcome of a project's provenance audit.
#[derive(Debug, Clone)]
pub struct ProvenanceOutcome {
    pub official_overrides: Vec<String>,
    pub registry_signature_failures: Vec<String>,
}

/// What deployment gating reads from readiness, audits and provenance.
#[derive(Debug, Clone)]
pub struct GateInputs {
    pub readiness_total: u32,
    pub mission_ready: bool,
    pub audit: AuditCounts,
    pub capability_failed_rows: u64,
    pub capability_trace_errors: u64,
    /// Trust of the configured packages, when a system configuration is given.
    pub package_trust: Option<Vec<PackageTrust>>,
    /// The provenance audit, when a project root is known.
    pub provenance: Option<ProvenanceOutcome>,
    /// The factor and severity of every readiness issue.
    pub issues: Vec<(String, ReadinessSeverity)>,
}

/// The view of a gate: name, outcome and message.
pub open spec fn gate_view(g: DeploymentGate) -> (Seq<char>, bool, Seq<char>) {
    (g.name@, g.passed, g.message@)
}

/// The views of a list of gates.
pub open spec fn gate_views(s: Seq<DeploymentGate>) -> Seq<(Seq<char>, bool, Seq<char>)> {
    s.map_values(|g: DeploymentGate| gate_view(g))
}

/// Texts joined with a separator.
pub open spec fn joined(items: Seq<Seq<char>>, sep: Seq<char>) -> Seq<char>
    decreases items.len(),
{
    if items.len() == 0 {
        Seq::empty()
    } else if items.len() == 1 {
        items[0]
    } else {
        joined(items.drop_last(), sep) + sep + items.last()
    }
}

pub(crate) fn join_texts(items: &Vec<String>, sep: &str) -> (r: String)
    ensures
        r@ == joined(texts(items@), sep@),
{
    let ghost ts = texts(items@);
    let mut out = String::new();
    let mut i: usize = 0;
    while i < items.len()
        invariant
            i <= items.len(),
            ts == texts(items@),
            out@ == joined(ts.take(i as int), sep@),
        decreases items.len() - i,
    {
        assert(ts.take(i + 1).drop_last() =~= ts.take(i as int));
        if i > 0 {
            out.append(sep);
        }
        out.append(items[i].as_str());
        proof {
            if i == 0 {
                assert(ts.take(1)[0] == ts[0]);
            }
        }
        i = i + 1;
    }
    assert(ts.take(items.len() as int) =~= ts);
    out
}

/// The text a low-trust package is listed with: `<package> (<score>/100)`.
pub open spec fn low_trust_text(p: PackageTrust) -> Seq<char> {
    p.package@ + " ("@ + dec_text(p.score as nat) + "/100)"@
}

/// The low-trust packages' texts, in order.
pub open spec fn low_trust_texts(s: Seq<PackageTrust>) -> Seq<Seq<char>>
    decreases s.len(),
{
    if s.len() == 0 {
        Seq::empty()
    } else if s.last().passed {
        low_trust_texts(s.drop_last())
    } else {
        low_trust_texts(s.drop_last()).push(low_trust_text(s.last()))
    }
}

/// The number of readiness issues of the health factor that are at least
/// high.
pub open spec fn health_issue_count(s: Seq<(String, ReadinessSeverity)>) -> nat
    decreases s.len(),
{
    if s.len() == 0 {
        0
    } else {
        health_issue_count(s.drop_last()) + if s.last().0@ == "Health"@ && s.last().1.rank() >= 3 {
            1nat
        } else {
            0nat
        }
    }
}

/// The readiness gate.
pub open spec fn readiness_gate(p: DeploymentGatePolicy, i: GateInputs) -> (Seq<char>, bool, Seq<char>) {
    (
        "readiness"@,
        i.mission_ready && i.readiness_total >= p.minimum_readiness_score,
        "score "@ + dec_text(i.readiness_total as nat) + " (min "@ + dec_text(
            p.minimum_readiness_score as nat,
        ) + "), mission_ready="@ + bool_text(i.mission_ready),
    )
}

/// The safety-audit gate, when the policy requires it.
pub open spec fn safety_gates(p: DeploymentGatePolicy, i: GateInputs) -> Seq<(Seq<char>, bool, Seq<char>)> {
    if p.require_safety_audit {
        seq![
            (
                "safety"@,
                i.audit.critical == 0 && i.audit.high == 0,
                "critical="@ + dec_text(i.audit.critical as nat) + ", high="@ + dec_text(
                    i.audit.high as nat,
                ) + ", medium="@ + dec_text(i.audit.medium as nat) + ", low="@ + dec_text(
                    i.audit.low as nat,
                ),
            ),
        ]
    } else {
        Seq::empty()
    }
}

/// The capability-traceability gate, when the policy requires it.
pub open spec fn capability_gates(p: DeploymentGatePolicy, i: GateInputs) -> Seq<(Seq<char>, bool, Seq<char>)> {
    let passed = i.capability_trace_errors == 0 && i.capability_failed_rows == 0;
    if p.require_capability_traceability {
        seq![
            (
                "capability"@,
                passed,
                if passed {
                    "capability traceability passed"@
                } else {
                    dec_text(i.capability_failed_rows as nat) + " capability rows failed, "@
                        + dec_text(i.capability_trace_errors as nat) + " trace errors"@
                },
            ),
        ]
    } else {
        Seq::empty()
    }
}

/// The package-trust gate, when packages are configured.
pub open spec fn trust_gates(i: GateInputs) -> Seq<(Seq<char>, bool, Seq<char>)> {
    match i.package_trust {
        Some(ps) => {
            let low = low_trust_texts(ps@);
            seq![
                (
                    "package_trust"@,
                    low.len() == 0,
                    if low.len() == 0 {
                        "all configured packages meet trust threshold"@
                    } else {
                        "low trust packages: "@ + joined(low, ", "@)
                    },
                ),
            ]
        },
        None => Seq::empty(),
    }
}

/// The provenance and signature gates the policy requires.
pub open spec fn provenance_gates(p: DeploymentGatePolicy, i: GateInputs) -> Seq<(Seq<char>, bool, Seq<char>)> {
    match i.provenance {
        Some(pr) => {
            let overrides = texts(pr.official_overrides@);
            let failures = texts(pr.registry_signature_failures@);
            (if p.require_official_provenance {
                seq![
                    (
                        "official_provenance"@,
                        overrides.len() == 0,
                        if overrides.len() == 0 {
                            "no official package name overrides detected"@
                        } else {
                            "official name overrides without registry provenance: "@ + joined(
                                overrides,
                                ", "@,
                            )
                        },
                    ),
                ]
            } else {
                Seq::empty()
            }) + (if p.require_registry_signatures {
                seq![
                    (
                        "registry_signatures"@,
                        failures.len() == 0,
                        if failures.len() == 0 {
                            "registry signature policy satisfied"@
                        } else {
                            "registry signature failures: "@ + joined(failures, "; "@)
                        },
                    ),
                ]
            } else {
                Seq::empty()
            })
        },
        None => (if p.require_official_provenance {
            seq![
                (
                    "official_provenance"@,
                    false,
                    "project root with spanda.toml required for provenance audit"@,
                ),
            ]
        } else {
            Seq::empty()
        }) + (if p.require_registry_signatures {
            seq![
                (
                    "registry_signatures"@,
                    false,
                    "project root with spanda.lock required for registry signature audit"@,
                ),
            ]
        } else {
            Seq::empty()
        }),
    }
}

/// The health gate.
pub open spec fn health_gate(i: GateInputs) -> (Seq<char>, bool, Seq<char>) {
    let n = health_issue_count(i.issues@);
    (
        "health"@,
        n == 0,
        if n == 0 {
            "no high-severity health issues"@
        } else {
            dec_text(n) + " high-severity health issues"@
        },
    )
}

/// Every gate a program is held to, in order.
pub open spec fn deployment_gates(p: DeploymentGatePolicy, i: GateInputs) -> Seq<(Seq<char>, bool, Seq<char>)> {
    seq![readiness_gate(p, i)] + safety_gates(p, i) + capability_gates(p, i) + trust_gates(i)
        + provenance_gates(p, i) + seq![health_gate(i)]
}

/// Every gate passed.
pub open spec fn all_passed(gs: Seq<(Seq<char>, bool, Seq<char>)>) -> bool {
    forall|k: int| 0 <= k < gs.len() ==> (#[trigger] gs[k]).1
}

fn gate(name: &str, passed: bool, message: String) -> (r: DeploymentGate)
    ensures
        gate_view(r) == (name@, passed, message@),
{
    DeploymentGate { name: name.to_owned(), passed, message }
}

fn push_gate(gates: &mut Vec<DeploymentGate>, g: DeploymentGate)
    ensures
        gate_views(final(gates)@) == gate_views(old(gates)@).push(gate_view(g)),
{
    let ghost before = gate_views(gates@);
    gates.push(g);
    assert(gate_views(gates@) =~= before.push(gate_view(g)));
}

fn count_health_issues(issues: &Vec<(String, ReadinessSeverity)>) -> (r: u64)
    ensures
        r == health_issue_count(issues@),
{
    let mut n: u64 = 0;
    let mut i: usize = 0;
    assert(issues@.take(0) =~= Seq::<(String, ReadinessSeverity)>::empty());
    while i < issues.len()
        invariant
            i <= issues.len(),
            n == health_issue_count(issues@.take(i as int)),
            n <= i,
        decreases issues.len() - i,
    {
        assert(issues@.take(i + 1).drop_last() =~= issues@.take(i as int));
        let (factor, severity) = &issues[i];
        if str_eq(factor.as_str(), "Health") && severity.at_least(ReadinessSeverity::High) {
            n = n + 1;
        }
        i = i + 1;
    }
    assert(issues@.take(issues.len() as int) =~= issues@);
    n
}

fn low_trust_list(ps: &Vec<PackageTrust>) -> (r: Vec<String>)
    ensures
        texts(r@) == low_trust_texts(ps@),
{
    let mut out: Vec<String> = Vec::new();
    let mut i: usize = 0;
    assert(ps@.take(0) =~= Seq::<PackageTrust>::empty());
    while i < ps.len()
        invariant
            i <= ps.len(),
            texts(out@) == low_trust_texts(ps@.take(i as int)),
        decreases ps.len() - i,
    {
        assert(ps@.take(i + 1).drop_last() =~= ps@.take(i as int));
        let p = &ps[i];
        if !p.passed {
            let ghost before = out@;
            let mut t = p.package.clone();
            t.append(" (");
            append_dec(&mut t, p.score as u64);
            t.append("/100)");
            out.push(t);
            assert(texts(out@) =~= texts(before).push(low_trust_text(*p)));
        }
        i = i + 1;
    }
    assert(ps@.take(ps.len() as int) =~= ps@);
    out
}

fn first_gates(policy: &DeploymentGatePolicy, inputs: &GateInputs) -> (r: Vec<DeploymentGate>)
    ensures
        gate_views(r@) == seq![readiness_gate(*policy, *inputs)] + safety_gates(*policy, *inputs)
            + capability_gates(*policy, *inputs),
{
    let mut gates: Vec<DeploymentGate> = Vec::new();
    let mut m = "score ".to_owned();
    append_dec(&mut m, inputs.readiness_total as u64);
    m.append(" (min ");
    append_dec(&mut m, policy.minimum_readiness_score as u64);
    m.append("), mission_ready=");
    m.append(bool_str(inputs.mission_ready));
    push_gate(
        &mut gates,
        gate("readiness", inputs.mission_ready && inputs.readiness_total >= policy.minimum_readiness_score, m),
    );
    let ghost g1 = gate_views(gates@);
    if policy.require_safety_audit {
        let a = inputs.audit;
        let mut m = "critical=".to_owned();
        append_dec(&mut m, a.critical);
        m.append(", high=");
        append_dec(&mut m, a.high);
        m.append(", medium=");
        append_dec(&mut m, a.medium);
        m.append(", low=");
        append_dec(&mut m, a.low);
        push_gate(&mut gates, gate("safety", a.critical == 0 && a.high == 0, m));
    }
    assert(gate_views(gates@) =~= g1 + safety_gates(*policy, *inputs));
    let ghost g2 = gate_views(gates@);
    if policy.require_capability_traceability {
        let passed = inputs.capability_trace_errors == 0 && inputs.capability_failed_rows == 0;
        let m = if passed {
            "capability traceability passed".to_owned()
        } else {
            let mut m = String::new();
            append_dec(&mut m, inputs.capability_failed_rows);
            m.append(" capability rows failed, ");
            append_dec(&mut m, inputs.capability_trace_errors);
            m.append(" trace errors");
            m
        };
        push_gate(&mut gates, gate("capability", passed, m));
    }
    assert(gate_views(gates@) =~= g2 + capability_gates(*policy, *inputs));
    gates
}

fn provenance_gate_list(policy: &DeploymentGatePolicy, inputs: &GateInputs, gates: &mut Vec<DeploymentGate>)
    ensures
        gate_views(final(gates)@) == gate_views(old(gates)@) + provenance_gates(*policy, *inputs),
{
    let ghost g0 = gate_views(gates@);
    match &inputs.provenance {
        Some(pr) => {
            if policy.require_official_provenance {
                let ok = pr.official_overrides.len() == 0;
                let m = if ok {
                    "no official package name overrides detected".to_owned()
                } else {
                    let mut m = "official name overrides without registry provenance: ".to_owned();
                    let j = join_texts(&pr.official_overrides, ", ");
                    m.append(j.as_str());
                    m
                };
                push_gate(gates, gate("official_provenance", ok, m));
            }
            let ghost g1 = gate_views(gates@);
            if policy.require_registry_signatures {
                let ok = pr.registry_signature_failures.len() == 0;
                let m = if ok {
                    "registry signature policy satisfied".to_owned()
                } else {
                    let mut m = "registry signature failures: ".to_owned();
                    let j = join_texts(&pr.registry_signature_failures, "; ");
                    m.append(j.as_str());
                    m
                };
                push_gate(gates, gate("registry_signatures", ok, m));
            }
            assert(gate_views(gates@) =~= g0 + provenance_gates(*policy, *inputs));
        },
        None => {
            if policy.require_official_provenance {
                push_gate(
                    gates,
                    gate(
                        "official_provenance",
                        false,
                        "project root with spanda.toml required for provenance audit".to_owned(),
                    ),
                );
            }
            if policy.require_registry_signatures {
                push_gate(
                    gates,
                    gate(
                        "registry_signatures",
                        false,
                        "project root with spanda.lock required for registry signature audit".to_owned(),
                    ),
                );
            }
            assert(gate_views(gates@) =~= g0 + provenance_gates(*policy, *inputs));
        },
    }
}

/// Evaluate the deployment gates of a program from its readiness, audit,
/// traceability, package-trust and provenance results: the report passes
/// exactly when every gate passes.
pub fn evaluate_deployment_gates(policy: &DeploymentGatePolicy, inputs: &GateInputs) -> (r: DeploymentGateReport)
    ensures
        gate_views(r.gates@) == deployment_gates(*policy, *inputs),
        r.passed == all_passed(deployment_gates(*policy, *inputs)),
{
    let mut gates = first_gates(policy, inputs);
    let ghost g3 = gate_views(gates@);
    match &inputs.package_trust {
        Some(ps) => {
            let low = low_trust_list(ps);
            let ok = low.len() == 0;
            let m = if ok {
                "all configured packages meet trust threshold".to_owned()
            } else {
                let mut m = "low trust packages: ".to_owned();
                let j = join_texts(&low, ", ");
                m.append(j.as_str());
                m
            };
            push_gate(&mut gates, gate("package_trust", ok, m));
        },
        None => {},
    }
    assert(gate_views(gates@) =~= g3 + trust_gates(*inputs));
    provenance_gate_list(policy, inputs, &mut gates);
    let ghost g5 = gate_views(gates@);
    let n = count_health_issues(&inputs.issues);
    let m = if n == 0 {
        "no high-severity health issues".to_owned()
    } else {
        let mut m = String::new();
        append_dec(&mut m, n);
        m.append(" high-severity health issues");
        m
    };
    push_gate(&mut gates, gate("health", n == 0, m));
    assert(gate_views(gates@) =~= deployment_gates(*policy, *inputs));
    let mut passed = true;
    let mut k: usize = 0;
    while k < gates.len()
        invariant
            k <= gates.len(),
            passed == forall|j: int| 0 <= j < k ==> (#[trigger] gate_views(gates@)[j]).1,
        decreases gates.len() - k,
    {
        if !gates[k].passed {
            passed = false;
        }
        proof {
            assert(gate_views(gates@)[k as int].1 == gates@[k as int].passed);
        }
        k = k + 1;
    }
    DeploymentGateReport { passed, gates }
}

/// Raising the minimum readiness score never lets a failing program pass:
/// a program that passes at a higher minimum passes at any lower one.
pub proof fn law_stricter_minimum_never_passes_more(
    p: DeploymentGatePolicy,
    i: GateInputs,
    lower: u32,
)
    requires
        lower <= p.minimum_readiness_score,
        all_passed(deployment_gates(p, i)),
    ensures
        all_passed(deployment_gates(DeploymentGatePolicy { minimum_readiness_score: lower, ..p }, i)),
{
    let q = DeploymentGatePolicy { minimum_readiness_score: lower, ..p };
    let a = deployment_gates(p, i);
    let b = deployment_gates(q, i);
    assert(a.len() == b.len());
    assert forall|k: int| 0 <= k < b.len() implies (#[trigger] b[k]).1 by {
        if k > 0 {
            assert(safety_gates(p, i) == safety_gates(q, i));
            assert(capability_gates(p, i) == capability_gates(q, i));
            assert(provenance_gates(p, i) == provenance_gates(q, i));
            assert(b[k] == a[k]);
        } else {
            assert(a[0].1);
        }
    }
}

/// A passing report passes the readiness gate: the program is mission ready
/// with at least the minimum readiness score.
pub proof fn law_passing_needs_readiness(p: DeploymentGatePolicy, i: GateInputs)
    requires
        all_passed(deployment_gates(p, i)),
    ensures
        i.mission_ready,
        i.readiness_total >= p.minimum_readiness_score,
        health_issue_count(i.issues@) == 0,
{
    let a = deployment_gates(p, i);
    assert(a[0] == readiness_gate(p, i));
    assert(a[a.len() - 1] == health_gate(i));
}

/// When the policy requires a safety audit, its gate (the second) passes
/// exactly when the audit found nothing critical and nothing high, and a
/// report with a critical or high finding never passes.
pub proof fn law_safety_gate_needs_clean_audit(p: DeploymentGatePolicy, i: GateInputs)
    requires
        p.require_safety_audit,
    ensures
        deployment_gates(p, i)[1].0 == "safety"@,
        deployment_gates(p, i)[1].1 <==> (i.audit.critical == 0 && i.audit.high == 0),
        (i.audit.critical > 0 || i.audit.high > 0) ==> !all_passed(deployment_gates(p, i)),
{
    let a = deployment_gates(p, i);
    assert(a[1] == safety_gates(p, i)[0]);
}

} // verus!
