//! Readiness models: forecast options, the mission twin's state and risk
//! models, human/robot teaming and the runtime readiness context.
use vstd::prelude::*;
use crate::text::{append_dec, concat2, copy_texts, dec_text, seq_contains, str_contains, texts};
use crate::readiness::severity::ReadinessSeverity;

verus! {

/// Options for readiness forecasting.
#[derive(Debug, Clone, PartialEq, Eq)]
pub struct ReadinessForecastOptions {
    pub horizons_days: Vec<u32>,
    pub minimum_score: u32,
    pub history_path: Option<String>,
    pub target: Option<String>,
}

impl Default for ReadinessForecastOptions {
    /// Horizons of 7, 14 and 30 days, a minimum score of 80, the default
    /// history and no target.
    fn default() -> (r: ReadinessForecastOptions)
        ensures
            r.horizons_days@ == seq![7u32, 14u32, 30u32],
            r.minimum_score == 80,
            r.history_path is None,
            r.target is None,
    {
        ReadinessForecastOptions { horizons_days: vec![7, 14, 30], minimum_score: 80, history_path: None, target: None }
    }
}

/// The readiness history to read: the override when one is given, else the
/// default location.
pub fn forecast_history_path(override_path: Option<&str>, default_path: &str) -> (r: String)
    ensures
        r@ == match override_path {
            Some(p) => p@,
            None => default_path@,
        },
{
    match override_path {
        Some(p) => p.to_owned(),
        None => default_path.to_owned(),
    }
}

/// Mission progress and checkpoint model.
#[derive(Debug, Clone, PartialEq, Eq)]
pub struct MissionStateModel {
    pub mission_count: usize,
    pub mission_plan_steps: usize,
    pub robots: Vec<String>,
    pub missions: Vec<String>,
    pub verification_passed: bool,
}

/// Active risk signals for the mission twin.
#[derive(Debug, Clone, PartialEq, Eq)]
pub struct MissionRiskModel {
    pub open_issues: usize,
    pub critical_issues: usize,
    pub readiness_score: u32,
    pub mission_ready: bool,
}

/// The robots, in order, that declare a mission.
pub open spec fn robots_with_mission(robots: Seq<(String, bool)>) -> Seq<Seq<char>>
    decreases robots.len(),
{
    if robots.len() == 0 {
        Seq::empty()
    } else {
        let prev = robots_with_mission(robots.drop_last());
        if robots.last().1 {
            prev.push(robots.last().0@)
        } else {
            prev
        }
    }
}

/// The sum of the plans' step counts.
pub open spec fn step_total(steps: Seq<usize>) -> nat
    decreases steps.len(),
{
    if steps.len() == 0 {
        0
    } else {
        step_total(steps.drop_last()) + steps.last() as nat
    }
}

/// The number of critical or high issues.
pub open spec fn severe_count(issues: Seq<ReadinessSeverity>) -> nat
    decreases issues.len(),
{
    if issues.len() == 0 {
        0
    } else {
        severe_count(issues.drop_last()) + if issues.last() is Critical || issues.last() is High {
            1nat
        } else {
            0nat
        }
    }
}

proof fn lemma_severe_count_le(issues: Seq<ReadinessSeverity>)
    ensures
        severe_count(issues) <= issues.len(),
    decreases issues.len(),
{
    if issues.len() > 0 {
        lemma_severe_count_le(issues.drop_last());
    }
}

/// The mission twin's state and risk models: from the robots (each with
/// whether it declares a mission), the step counts of the mission plans,
/// whether each mission is achievable, the readiness issues' severities,
/// the readiness score and whether the mission is ready.
pub fn mission_models(
    robots: &Vec<(String, bool)>,
    plan_steps: &Vec<usize>,
    achievable: &Vec<bool>,
    issues: &Vec<ReadinessSeverity>,
    readiness_score: u32,
    mission_ready: bool,
) -> (r: (MissionStateModel, MissionRiskModel))
    requires
        step_total(plan_steps@) <= usize::MAX,
    ensures
        texts(r.0.robots@) == robots@.map_values(|p: (String, bool)| p.0@),
        texts(r.0.missions@) == robots_with_mission(robots@),
        r.0.mission_count == robots_with_mission(robots@).len(),
        r.0.mission_plan_steps == step_total(plan_steps@),
        r.0.verification_passed == forall|i: int| 0 <= i < achievable@.len() ==> #[trigger] achievable@[i],
        r.1.open_issues == issues@.len(),
        r.1.critical_issues == severe_count(issues@),
        r.1.readiness_score == readiness_score,
        r.1.mission_ready == mission_ready,
{
    let mut names: Vec<String> = Vec::new();
    let mut missions: Vec<String> = Vec::new();
    let mut i: usize = 0;
    assert(robots@.take(0) =~= Seq::<(String, bool)>::empty());
    while i < robots.len()
        invariant
            i <= robots.len(),
            texts(names@) == robots@.take(i as int).map_values(|p: (String, bool)| p.0@),
            texts(missions@) == robots_with_mission(robots@.take(i as int)),
            missions@.len() <= i,
        decreases robots.len() - i,
    {
        assert(robots@.take(i + 1).drop_last() =~= robots@.take(i as int));
        let ghost n0 = texts(names@);
        let ghost m0 = texts(missions@);
        names.push(robots[i].0.clone());
        assert(texts(names@) =~= n0.push(robots@[i as int].0@));
        assert(robots@.take(i + 1).map_values(|p: (String, bool)| p.0@) =~= robots@.take(i as int).map_values(
            |p: (String, bool)| p.0@,
        ).push(robots@[i as int].0@));
        if robots[i].1 {
            missions.push(robots[i].0.clone());
            assert(texts(missions@) =~= m0.push(robots@[i as int].0@));
        }
        i = i + 1;
    }
    assert(robots@.take(robots.len() as int) =~= robots@);
    let mut steps: usize = 0;
    let mut k: usize = 0;
    assert(plan_steps@.take(0) =~= Seq::<usize>::empty());
    while k < plan_steps.len()
        invariant
            k <= plan_steps.len(),
            steps == step_total(plan_steps@.take(k as int)),
            step_total(plan_steps@) <= usize::MAX,
        decreases plan_steps.len() - k,
    {
        assert(plan_steps@.take(k + 1).drop_last() =~= plan_steps@.take(k as int));
        proof {
            lemma_step_total_prefix(plan_steps@, k as int + 1);
        }
        steps = steps + plan_steps[k];
        k = k + 1;
    }
    assert(plan_steps@.take(plan_steps.len() as int) =~= plan_steps@);
    let mut passed = true;
    let mut a: usize = 0;
    while a < achievable.len()
        invariant
            a <= achievable.len(),
            passed == forall|x: int| 0 <= x < a ==> #[trigger] achievable@[x],
        decreases achievable.len() - a,
    {
        passed = passed && achievable[a];
        a = a + 1;
    }
    let mut critical: usize = 0;
    let mut c: usize = 0;
    assert(issues@.take(0) =~= Seq::<ReadinessSeverity>::empty());
    while c < issues.len()
        invariant
            c <= issues.len(),
            critical == severe_count(issues@.take(c as int)),
        decreases issues.len() - c,
    {
        assert(issues@.take(c + 1).drop_last() =~= issues@.take(c as int));
        proof {
            lemma_severe_count_le(issues@.take(c as int));
        }
        match issues[c] {
            ReadinessSeverity::Critical | ReadinessSeverity::High => {
                critical = critical + 1;
            },
            _ => {},
        }
        c = c + 1;
    }
    assert(issues@.take(issues.len() as int) =~= issues@);
    let count = missions.len();
    (
        MissionStateModel {
            mission_count: count,
            mission_plan_steps: steps,
            robots: names,
            missions,
            verification_passed: passed,
        },
        MissionRiskModel {
            open_issues: issues.len(),
            critical_issues: critical,
            readiness_score,
            mission_ready,
        },
    )
}

proof fn lemma_step_total_prefix(steps: Seq<usize>, n: int)
    requires
        0 <= n <= steps.len(),
    ensures
        step_total(steps.take(n)) <= step_total(steps),
    decreases steps.len(),
{
    if n < steps.len() {
        assert(steps.drop_last().take(n) =~= steps.take(n));
        lemma_step_total_prefix(steps.drop_last(), n);
    } else {
        assert(steps.take(n) =~= steps);
    }
}

/// Escalation path extracted from recovery/continuity policies.
#[derive(Debug, Clone, PartialEq, Eq)]
pub struct HumanEscalation {
    pub policy: String,
    pub trigger: String,
    pub actions: Vec<String>,
}

/// A policy branch: its condition and actions.
#[derive(Debug, Clone)]
pub struct PolicyBranch {
    pub condition: String,
    pub actions: Vec<String>,
}

/// A recovery or continuity policy: its name and branches.
#[derive(Debug, Clone)]
pub struct PolicyBranches {
    pub name: String,
    pub branches: Vec<PolicyBranch>,
}

/// One escalation per branch, policy by policy.
pub open spec fn escalation_views(policies: Seq<PolicyBranches>) -> Seq<(Seq<char>, Seq<char>, Seq<Seq<char>>)>
    decreases policies.len(),
{
    if policies.len() == 0 {
        Seq::empty()
    } else {
        let p = policies.last();
        escalation_views(policies.drop_last()) + p.branches@.map_values(
            |b: PolicyBranch| (p.name@, b.condition@, texts(b.actions@)),
        )
    }
}

pub open spec fn escalations_view(es: Seq<HumanEscalation>) -> Seq<(Seq<char>, Seq<char>, Seq<Seq<char>>)> {
    es.map_values(|e: HumanEscalation| (e.policy@, e.trigger@, texts(e.actions@)))
}


fn push_escalations(out: &mut Vec<HumanEscalation>, policies: &Vec<PolicyBranches>)
    ensures
        escalations_view(final(out)@) == escalations_view(old(out)@) + escalation_views(policies@),
{
    let ghost start = escalations_view(out@);
    let mut i: usize = 0;
    assert(policies@.take(0) =~= Seq::<PolicyBranches>::empty());
    while i < policies.len()
        invariant
            i <= policies.len(),
            escalations_view(out@) == start + escalation_views(policies@.take(i as int)),
        decreases policies.len() - i,
    {
        assert(policies@.take(i + 1).drop_last() =~= policies@.take(i as int));
        let p = &policies[i];
        let ghost mid = escalations_view(out@);
        let ghost f = |b: PolicyBranch| (p.name@, b.condition@, texts(b.actions@));
        let mut j: usize = 0;
        while j < p.branches.len()
            invariant
                j <= p.branches.len(),
                escalations_view(out@) == mid + p.branches@.take(j as int).map_values(f),
                f == |b: PolicyBranch| (p.name@, b.condition@, texts(b.actions@)),
            decreases p.branches.len() - j,
        {
            let ghost before = escalations_view(out@);
            let b = &p.branches[j];
            out.push(HumanEscalation { policy: p.name.clone(), trigger: b.condition.clone(), actions: copy_texts(&b.actions) });
            assert(escalations_view(out@) =~= before.push(f(p.branches@[j as int])));
            assert(p.branches@.take(j + 1).map_values(f) =~= p.branches@.take(j as int).map_values(f).push(f(p.branches@[j as int])));
            j = j + 1;
        }
        assert(p.branches@.take(p.branches.len() as int) =~= p.branches@);
        assert(escalations_view(out@) =~= start + escalation_views(policies@.take(i + 1)));
        i = i + 1;
    }
    assert(policies@.take(policies.len() as int) =~= policies@);
}

/// The escalation paths of the recovery policies, then of the continuity
/// policies: one per branch.
pub fn extract_escalations(recovery: &Vec<PolicyBranches>, continuity: &Vec<PolicyBranches>) -> (r: Vec<HumanEscalation>)
    ensures
        escalations_view(r@) == escalation_views(recovery@) + escalation_views(continuity@),
{
    let mut out: Vec<HumanEscalation> = Vec::new();
    assert(escalations_view(out@) =~= Seq::<(Seq<char>, Seq<char>, Seq<Seq<char>>)>::empty());
    push_escalations(&mut out, recovery);
    push_escalations(&mut out, continuity);
    assert(escalations_view(out@) =~= escalation_views(recovery@) + escalation_views(continuity@));
    out
}

/// A recovery action that falls back: it mentions `safe`, `degraded` or
/// `mode`.
pub open spec fn is_fallback(action: Seq<char>) -> bool {
    seq_contains(action, "safe"@) || seq_contains(action, "degraded"@) || seq_contains(action, "mode"@)
}

/// `health:<status> -> <n> statements` for each health reaction, in order.
pub open spec fn health_fallbacks(reactions: Seq<(String, usize)>) -> Seq<Seq<char>> {
    reactions.map_values(|r: (String, usize)| "health:"@ + r.0@ + " -> "@ + dec_text(r.1 as nat) + " statements"@)
}

/// `recovery:<condition> -> <action>` for each falling-back action of each
/// branch, in order.
pub open spec fn recovery_fallbacks(branches: Seq<PolicyBranch>) -> Seq<Seq<char>>
    decreases branches.len(),
{
    if branches.len() == 0 {
        Seq::empty()
    } else {
        let b = branches.last();
        recovery_fallbacks(branches.drop_last()) + branch_fallbacks(b.condition@, texts(b.actions@))
    }
}

pub open spec fn branch_fallbacks(condition: Seq<char>, actions: Seq<Seq<char>>) -> Seq<Seq<char>>
    decreases actions.len(),
{
    if actions.len() == 0 {
        Seq::empty()
    } else {
        let prev = branch_fallbacks(condition, actions.drop_last());
        if is_fallback(actions.last()) {
            prev.push("recovery:"@ + condition + " -> "@ + actions.last())
        } else {
            prev
        }
    }
}

/// The fallback actions of a program: its health reactions (status and
/// statement count), then the falling-back actions of its recovery
/// branches.
pub fn extract_fallback_actions(health_reactions: &Vec<(String, usize)>, recovery: &Vec<PolicyBranch>) -> (r: Vec<String>)
    requires
        forall|i: int| 0 <= i < health_reactions@.len() ==> (#[trigger] health_reactions@[i]).1 <= u64::MAX,
    ensures
        texts(r@) == health_fallbacks(health_reactions@) + recovery_fallbacks(recovery@),
{
    let mut out: Vec<String> = Vec::new();
    let mut i: usize = 0;
    while i < health_reactions.len()
        invariant
            i <= health_reactions.len(),
            forall|x: int| 0 <= x < health_reactions@.len() ==> (#[trigger] health_reactions@[x]).1 <= u64::MAX,
            texts(out@) == health_fallbacks(health_reactions@.take(i as int)),
        decreases health_reactions.len() - i,
    {
        let ghost before = texts(out@);
        let r = &health_reactions[i];
        let mut line = concat2("health:", r.0.as_str());
        line.append(" -> ");
        append_dec(&mut line, r.1 as u64);
        line.append(" statements");
        out.push(line);
        assert(health_fallbacks(health_reactions@.take(i + 1)) =~= health_fallbacks(health_reactions@.take(i as int)).push(
            "health:"@ + r.0@ + " -> "@ + dec_text(r.1 as nat) + " statements"@,
        ));
        assert(texts(out@) =~= before.push("health:"@ + r.0@ + " -> "@ + dec_text(r.1 as nat) + " statements"@));
        i = i + 1;
    }
    assert(health_reactions@.take(health_reactions.len() as int) =~= health_reactions@);
    let ghost h = texts(out@);
    let mut k: usize = 0;
    assert(recovery@.take(0) =~= Seq::<PolicyBranch>::empty());
    while k < recovery.len()
        invariant
            k <= recovery.len(),
            texts(out@) == h + recovery_fallbacks(recovery@.take(k as int)),
        decreases recovery.len() - k,
    {
        assert(recovery@.take(k + 1).drop_last() =~= recovery@.take(k as int));
        let b = &recovery[k];
        let ghost mid = texts(out@);
        let ghost acts = texts(b.actions@);
        let mut a: usize = 0;
        assert(acts.take(0) =~= Seq::<Seq<char>>::empty());
        while a < b.actions.len()
            invariant
                a <= b.actions.len(),
                acts == texts(b.actions@),
                texts(out@) == mid + branch_fallbacks(b.condition@, acts.take(a as int)),
            decreases b.actions.len() - a,
        {
            assert(acts.take(a + 1).drop_last() =~= acts.take(a as int));
            assert(acts.take(a + 1).last() == b.actions@[a as int]@);
            let act = b.actions[a].as_str();
            if str_contains(act, "safe") || str_contains(act, "degraded") || str_contains(act, "mode") {
                let ghost before = texts(out@);
                let mut line = concat2("recovery:", b.condition.as_str());
                line.append(" -> ");
                line.append(act);
                out.push(line);
                assert(texts(out@) =~= before.push("recovery:"@ + b.condition@ + " -> "@ + act@));
            }
            a = a + 1;
        }
        assert(acts.take(b.actions.len() as int) =~= acts);
        assert(texts(out@) =~= h + recovery_fallbacks(recovery@.take(k + 1)));
        k = k + 1;
    }
    assert(recovery@.take(recovery.len() as int) =~= recovery@);
    out
}

/// What the approval verification found: its rows and whether every
/// approval path is compatible.
#[derive(Debug, Clone, PartialEq, Eq)]
pub struct ApprovalVerifyReport {
    pub rows: Vec<String>,
    pub compatible: bool,
}

/// Human/robot teaming verification report.
#[derive(Debug, Clone, PartialEq, Eq)]
pub struct HumanTeamingReport {
    pub program: String,
    pub approvals: ApprovalVerifyReport,
    pub escalations: Vec<HumanEscalation>,
    pub fallback_actions: Vec<String>,
    pub passed: bool,
}

/// The teaming report of a program: it passes when its approval paths are
/// compatible.
pub fn human_teaming_report(
    source_label: &str,
    approvals: ApprovalVerifyReport,
    escalations: Vec<HumanEscalation>,
    fallback_actions: Vec<String>,
) -> (r: HumanTeamingReport)
    ensures
        r.program@ == source_label@,
        r.approvals == approvals,
        r.escalations@ == escalations@,
        r.fallback_actions@ == fallback_actions@,
        r.passed == approvals.compatible,
{
    let passed = approvals.compatible;
    HumanTeamingReport { program: source_label.to_owned(), approvals, escalations, fallback_actions, passed }
}

/// Live fault and event signals used during readiness evaluation.
#[derive(Debug, Clone, PartialEq, Eq)]
pub struct RuntimeReadinessContext {
    pub faults: Vec<String>,
    pub events: Vec<String>,
}

impl Default for RuntimeReadinessContext {
    /// No faults and no events.
    fn default() -> (r: RuntimeReadinessContext)
        ensures
            r.faults@.len() == 0,
            r.events@.len() == 0,
    {
        RuntimeReadinessContext { faults: Vec::new(), events: Vec::new() }
    }
}

/// The health faults injected into the hardware monitor on request.
pub fn default_health_faults() -> (r: Vec<&'static str>)
    ensures
        r@.map_values(|s: &'static str| s@) == seq!["GPSDegraded"@, "CameraOffline"@, "RobotHealthCritical"@],
{
    let r = vec!["GPSDegraded", "CameraOffline", "RobotHealthCritical"];
    assert(r@.map_values(|s: &'static str| s@) =~= seq!["GPSDegraded"@, "CameraOffline"@, "RobotHealthCritical"@]);
    r
}

/// The readiness runtime that the full readiness engine backs.
#[derive(Debug, Default, Clone, Copy, PartialEq, Eq)]
pub struct ReadinessBackedRuntime;

} // verus!
