//! Orchestrated recovery plans and the evidence a recovery leaves.
use vstd::prelude::*;
use crate::text::{append_dec, concat2, copy_texts, dec_text, has_text, insert_sorted_unique, sorted_strict, texts};
use crate::recovery::entity::{entity_named, get_named, EntityKind, EntityRegistry};
use crate::recovery::types::{FailureClassification, OrchestratorStrategy, RecoveryEscalationLevel};
use crate::recovery::policy::EntityRecoveryPolicy;
use crate::recovery::playbook::{match_playbooks, matching, PlaybookStep, RecoveryPlaybook};
use crate::recovery::decision::{decide_recovery, is_recovery_decision, RecoveryDecision};
use crate::recovery::graph::{analyze_impact, build_recovery_graph, graph_of, reaches, RecoveryGraph};
use crate::recovery::simulation::{plan_id, plan_strategies, strategies_ok, underscored, RecoveryTimelineEvent};
use crate::recovery::plugin::RecoveryPluginRegistry;
use crate::recovery::validation::OrchestratorValidationResult;
use crate::recovery::learning::RecoveryOutcomeStatus;

verus! {

/// Orchestrated recovery plan for one entity and failure.
#[derive(Debug, Clone)]
pub struct OrchestratedRecoveryPlan {
    pub plan_id: String,
    pub entity_id: String,
    pub entity_kind: EntityKind,
    pub failure: String,
    pub classification: FailureClassification,
    pub diagnosis: String,
    pub strategies: Vec<OrchestratorStrategy>,
    pub escalation_level: RecoveryEscalationLevel,
    pub decision: RecoveryDecision,
    pub playbook: Option<String>,
    pub upstream_impact: Vec<String>,
    pub downstream_impact: Vec<String>,
    pub estimated_duration_secs: u64,
    pub risk: String,
}

/// The impact lists are those of the graph for the entity: what it depends
/// on and what depends on it, directly or not, each sorted.
pub open spec fn impact_of(g: RecoveryGraph, id: Seq<char>, up: Seq<String>, down: Seq<String>) -> bool {
    &&& sorted_strict(up)
    &&& sorted_strict(down)
    &&& forall|t: Seq<char>| has_text(up, t) <==> (t != id && reaches(g.dependency_edges@, true, id, t))
    &&& forall|t: Seq<char>| has_text(down, t) <==> (t != id && reaches(g.dependency_edges@, false, id, t))
}

/// Fill the plan's upstream and downstream impact from the graph.
pub fn enrich_plan_with_impact(plan: &mut OrchestratedRecoveryPlan, graph: &RecoveryGraph)
    ensures
        impact_of(*graph, old(plan).entity_id@, final(plan).upstream_impact@, final(plan).downstream_impact@),
        final(plan).plan_id == old(plan).plan_id,
        final(plan).entity_id == old(plan).entity_id,
        final(plan).entity_kind == old(plan).entity_kind,
        final(plan).failure == old(plan).failure,
        final(plan).classification == old(plan).classification,
        final(plan).diagnosis == old(plan).diagnosis,
        final(plan).strategies == old(plan).strategies,
        final(plan).escalation_level == old(plan).escalation_level,
        final(plan).decision == old(plan).decision,
        final(plan).playbook == old(plan).playbook,
        final(plan).estimated_duration_secs == old(plan).estimated_duration_secs,
        final(plan).risk == old(plan).risk,
{
    let (up, down) = analyze_impact(graph, plan.entity_id.as_str());
    plan.upstream_impact = up;
    plan.downstream_impact = down;
}

/// The strategies of the playbook's steps, in order.
pub open spec fn step_strategies(p: RecoveryPlaybook) -> Seq<OrchestratorStrategy> {
    p.steps@.map_values(|s: PlaybookStep| s.strategy)
}

/// The plan for an entity and a failure: the decision for it, the
/// strategies of the first playbook that answers the failure (or the
/// recommended strategy), the escalation level the decision recommends and
/// the impact the recovery graph rooted at the entity shows.
pub open spec fn plan_ok(
    reg: EntityRegistry,
    policies: Seq<EntityRecoveryPolicy>,
    playbooks: Seq<RecoveryPlaybook>,
    entity_id: &str,
    failure: Seq<char>,
    classification: FailureClassification,
    diagnosis: Seq<char>,
    p: OrchestratedRecoveryPlan,
) -> bool {
    let id = entity_id@;
    match entity_named(reg, id) {
        Some(e) => {
            &&& p.plan_id@ == "plan-"@ + id
            &&& p.entity_id@ == id
            &&& p.entity_kind == e.entity_type
            &&& p.failure@ == failure
            &&& p.classification == classification
            &&& p.diagnosis@ == diagnosis
            &&& is_recovery_decision(e, failure, policies, reg, classification, p.decision)
            &&& p.escalation_level == p.decision.recommended_level
            &&& if matching(playbooks, failure).len() > 0 {
                &&& p.strategies@ == step_strategies(matching(playbooks, failure)[0])
                &&& p.playbook matches Some(n) && n@ == matching(playbooks, failure)[0].name@
            } else {
                &&& p.strategies@ == seq![p.decision.recommended_strategy]
                &&& p.playbook is None
            }
            &&& p.estimated_duration_secs == 60
            &&& p.risk@ == "medium"@
            &&& exists|g: RecoveryGraph|
                graph_of(reg, Some(entity_id), g) && impact_of(g, id, p.upstream_impact@, p.downstream_impact@)
        },
        None => false,
    }
}

/// Build the orchestrated plan for an entity and a failure; `None` when no
/// entity has the id. The diagnosis is the one the recovery planner gave.
pub fn build_orchestrated_plan(
    registry: &EntityRegistry,
    policies: &[EntityRecoveryPolicy],
    playbooks: &[RecoveryPlaybook],
    entity_id: &str,
    failure: &str,
    classification: FailureClassification,
    diagnosis: &str,
) -> (r: Option<OrchestratedRecoveryPlan>)
    requires
        registry.relationships@.len() < 0x3fff_ffff,
    ensures
        match r {
            Some(p) => plan_ok(*registry, policies@, playbooks@, entity_id, failure@, classification, diagnosis@, p),
            None => entity_named(*registry, entity_id@) is None,
        },
{
    let entity = match get_named(registry, entity_id) {
        Some(e) => e,
        None => {
            return None;
        },
    };
    let decision = decide_recovery(entity, failure, policies, registry, classification);
    let matched = match_playbooks(playbooks, failure);
    let mut strategies: Vec<OrchestratorStrategy> = Vec::new();
    let playbook: Option<String>;
    if matched.len() > 0 {
        let pb = matched[0];
        let mut i: usize = 0;
        while i < pb.steps.len()
            invariant
                i <= pb.steps.len(),
                strategies@ == pb.steps@.take(i as int).map_values(|s: PlaybookStep| s.strategy),
            decreases pb.steps.len() - i,
        {
            strategies.push(pb.steps[i].strategy.duplicate());
            assert(pb.steps@.take(i + 1).map_values(|s: PlaybookStep| s.strategy) =~= pb.steps@.take(i as int).map_values(
                |s: PlaybookStep| s.strategy,
            ).push(pb.steps@[i as int].strategy));
            i = i + 1;
        }
        assert(pb.steps@.take(pb.steps.len() as int) =~= pb.steps@);
        playbook = Some(pb.name.clone());
    } else {
        strategies.push(decision.recommended_strategy.duplicate());
        assert(strategies@ =~= seq![decision.recommended_strategy]);
        playbook = None;
    }
    let graph = build_recovery_graph(registry, Some(entity_id));
    let level = decision.recommended_level;
    let mut plan = OrchestratedRecoveryPlan {
        plan_id: concat2("plan-", entity_id),
        entity_id: entity_id.to_owned(),
        entity_kind: entity.entity_type,
        failure: failure.to_owned(),
        classification,
        diagnosis: diagnosis.to_owned(),
        strategies,
        escalation_level: level,
        decision,
        playbook,
        upstream_impact: Vec::new(),
        downstream_impact: Vec::new(),
        estimated_duration_secs: 60,
        risk: "medium".to_owned(),
    };
    enrich_plan_with_impact(&mut plan, &graph);
    Some(plan)
}

/// The five phases of a recovery, each given a fifth of the total time in
/// milliseconds (the product saturating).
pub open spec fn timeline_views(p: OrchestratedRecoveryPlan, total_secs: u64, timestamp: Seq<char>) -> Seq<
    (Seq<char>, Seq<char>, Seq<char>, u64),
> {
    let d = (if total_secs * 1000 > u64::MAX { u64::MAX as int } else { total_secs * 1000 }) / 5;
    seq![
        ("detect"@, "Detected failure: "@ + p.failure@, timestamp, d as u64),
        ("diagnose"@, p.diagnosis@, timestamp, d as u64),
        ("plan"@, "Plan "@ + p.plan_id@ + " with "@ + dec_text(p.strategies@.len()) + " strategies"@, timestamp, d as u64),
        ("validate"@, "Validation gates executed"@, timestamp, d as u64),
        ("complete"@, "Recovery completed — risk "@ + p.risk@, timestamp, d as u64),
    ]
}

pub open spec fn event_views(es: Seq<RecoveryTimelineEvent>) -> Seq<(Seq<char>, Seq<char>, Seq<char>, u64)> {
    es.map_values(|e: RecoveryTimelineEvent| (e.phase@, e.description@, e.timestamp@, e.duration_ms))
}

fn event(phase: &str, description: String, timestamp: &str, duration_ms: u64) -> (e: RecoveryTimelineEvent)
    ensures
        e.phase@ == phase@,
        e.description@ == description@,
        e.timestamp@ == timestamp@,
        e.duration_ms == duration_ms,
{
    RecoveryTimelineEvent { phase: phase.to_owned(), description, timestamp: timestamp.to_owned(), duration_ms }
}

/// The timeline of a recovery.
pub fn build_timeline(plan: &OrchestratedRecoveryPlan, total_secs: u64, timestamp: &str) -> (r: Vec<RecoveryTimelineEvent>)
    ensures
        event_views(r@) == timeline_views(*plan, total_secs, timestamp@),
{
    let product: u64 = if total_secs > u64::MAX / 1000 { u64::MAX } else { total_secs * 1000 };
    let d = product / 5;
    let mut planned = concat2("Plan ", plan.plan_id.as_str());
    planned.append(" with ");
    append_dec(&mut planned, plan.strategies.len() as u64);
    planned.append(" strategies");
    let r = vec![
        event("detect", concat2("Detected failure: ", plan.failure.as_str()), timestamp, d),
        event("diagnose", plan.diagnosis.clone(), timestamp, d),
        event("plan", planned, timestamp, d),
        event("validate", "Validation gates executed".to_owned(), timestamp, d),
        event("complete", concat2("Recovery completed — risk ", plan.risk.as_str()), timestamp, d),
    ];
    assert(event_views(r@) =~= timeline_views(*plan, total_secs, timestamp@));
    r
}

/// Immutable evidence of a recovery operation.
#[derive(Debug, Clone)]
pub struct OrchestratorRecoveryEvidence {
    pub evidence_id: String,
    pub root_cause: String,
    pub strategy: OrchestratorStrategy,
    pub timeline: Vec<RecoveryTimelineEvent>,
    pub entities_involved: Vec<String>,
    pub safety_validation: String,
    pub readiness_result: String,
    pub trust_result: String,
    pub operator_actions: Vec<String>,
    pub automatic_decisions: Vec<String>,
    pub mission_impact: String,
    pub duration_secs: u64,
    pub status: RecoveryOutcomeStatus,
    pub timestamp: String,
}

/// `PASS` or `FAIL`.
pub open spec fn pass_text(b: bool) -> Seq<char> {
    if b {
        "PASS"@
    } else {
        "FAIL"@
    }
}

fn pass_string(b: bool) -> (r: String)
    ensures
        r@ == pass_text(b),
{
    if b {
        "PASS".to_owned()
    } else {
        "FAIL".to_owned()
    }
}

/// A signed number in decimal.
pub open spec fn signed_dec(n: int) -> Seq<char> {
    if n < 0 {
        "-"@ + dec_text((-n) as nat)
    } else {
        dec_text(n as nat)
    }
}

/// The evidence a recovery leaves: its plan, validation and outcome (the
/// recorded one, else success exactly when validation passed), when it ran
/// (`now`, and `now_millis` for the evidence id) and how long it took.
pub open spec fn evidence_ok(
    plan: OrchestratedRecoveryPlan,
    validation: OrchestratorValidationResult,
    outcome: Option<RecoveryOutcomeStatus>,
    duration_secs: u64,
    now: Seq<char>,
    now_millis: i64,
    e: OrchestratorRecoveryEvidence,
) -> bool {
    &&& e.evidence_id@ == "rcv-"@ + signed_dec(now_millis as int)
    &&& e.root_cause@ == plan.failure@
    &&& e.strategy == if plan.strategies@.len() > 0 {
        plan.strategies@[0]
    } else {
        plan.decision.recommended_strategy
    }
    &&& event_views(e.timeline@) == timeline_views(plan, duration_secs, now)
    &&& sorted_strict(e.entities_involved@)
    &&& forall|t: Seq<char>|
        has_text(e.entities_involved@, t) <==> (t == plan.entity_id@ || has_text(plan.upstream_impact@, t) || has_text(
            plan.downstream_impact@,
            t,
        ))
    &&& e.safety_validation@ == pass_text(validation.security_verification)
    &&& e.readiness_result@ == pass_text(validation.readiness_verification)
    &&& e.trust_result@ == pass_text(validation.trust_verification)
    &&& texts(e.operator_actions@) == if plan.decision.is_authorized && !plan.decision.automatic {
        seq!["Operator approval recorded"@]
    } else {
        Seq::<Seq<char>>::empty()
    }
    &&& texts(e.automatic_decisions@) == texts(plan.decision.explanations@) + if plan.decision.automatic {
        seq!["Automatic recovery authorized"@]
    } else {
        Seq::<Seq<char>>::empty()
    }
    &&& e.mission_impact@ == "disruption_score="@ + dec_text(plan.decision.mission_disruption_score as nat) + " upstream="@
        + dec_text(plan.upstream_impact@.len()) + " downstream="@ + dec_text(plan.downstream_impact@.len())
    &&& e.duration_secs == duration_secs
    &&& e.status == match outcome {
        Some(s) => s,
        None => if validation.passed {
            RecoveryOutcomeStatus::Success
        } else {
            RecoveryOutcomeStatus::Failed
        },
    }
    &&& e.timestamp@ == now
}


fn add_all_sorted(out: &mut Vec<String>, items: &Vec<String>)
    requires
        sorted_strict(old(out)@),
    ensures
        sorted_strict(final(out)@),
        forall|t: Seq<char>| #[trigger] has_text(final(out)@, t) <==> (has_text(old(out)@, t) || has_text(items@, t)),
{
    let ghost start = out@;
    let mut i: usize = 0;
    while i < items.len()
        invariant
            i <= items.len(),
            sorted_strict(out@),
            start == old(out)@,
            forall|t: Seq<char>| #[trigger] has_text(out@, t) <==> (has_text(start, t) || has_text(items@.take(i as int), t)),
        decreases items.len() - i,
    {
        let ghost before = out@;
        let x = items[i].clone();
        assert(x@ == items@[i as int]@);
        insert_sorted_unique(out, x);
        proof {
            let a = items@.take(i as int);
            let b = items@.take(i + 1);
            assert forall|t: Seq<char>| has_text(b, t) <==> (has_text(a, t) || t == items@[i as int]@) by {
                if has_text(b, t) {
                    let k = choose|k: int| 0 <= k < b.len() && #[trigger] b[k]@ == t;
                    if k < i {
                        assert(a[k]@ == t);
                    }
                }
                if has_text(a, t) {
                    let k = choose|k: int| 0 <= k < a.len() && #[trigger] a[k]@ == t;
                    assert(b[k]@ == t);
                }
                if t == items@[i as int]@ {
                    assert(b[i as int]@ == t);
                }
            }
            assert forall|t: Seq<char>| has_text(out@, t) <==> (has_text(start, t) || has_text(b, t)) by {
                assert(has_text(out@, t) <==> (has_text(before, t) || t == x@));
                assert(has_text(before, t) <==> (has_text(start, t) || has_text(a, t)));
                assert(has_text(b, t) <==> (has_text(a, t) || t == items@[i as int]@));
            }
        }
        i = i + 1;
    }
    assert(items@.take(items.len() as int) =~= items@);
    assert forall|t: Seq<char>| #[trigger] has_text(out@, t) <==> (has_text(start, t) || has_text(items@, t)) by {
        assert(has_text(out@, t) <==> (has_text(start, t) || has_text(items@.take(items.len() as int), t)));
    }
}

/// The evidence of a completed recovery.
pub fn generate_evidence(
    plan: &OrchestratedRecoveryPlan,
    validation: &OrchestratorValidationResult,
    outcome: Option<RecoveryOutcomeStatus>,
    duration_secs: u64,
    now: &str,
    now_millis: i64,
) -> (e: OrchestratorRecoveryEvidence)
    ensures
        evidence_ok(*plan, *validation, outcome, duration_secs, now@, now_millis, e),
{
    let status = match outcome {
        Some(s) => s,
        None => if validation.passed {
            RecoveryOutcomeStatus::Success
        } else {
            RecoveryOutcomeStatus::Failed
        },
    };
    let mut entities: Vec<String> = Vec::new();
    let first = plan.entity_id.clone();
    assert(first@ == plan.entity_id@);
    insert_sorted_unique(&mut entities, first);
    let ghost e1 = entities@;
    add_all_sorted(&mut entities, &plan.upstream_impact);
    let ghost e2 = entities@;
    add_all_sorted(&mut entities, &plan.downstream_impact);
    let mut automatic = copy_texts(&plan.decision.explanations);
    let ghost ex = texts(automatic@);
    if plan.decision.automatic {
        automatic.push("Automatic recovery authorized".to_owned());
    }
    assert(texts(automatic@) =~= ex + if plan.decision.automatic {
        seq!["Automatic recovery authorized"@]
    } else {
        Seq::<Seq<char>>::empty()
    });
    let mut operator: Vec<String> = Vec::new();
    if plan.decision.is_authorized && !plan.decision.automatic {
        operator.push("Operator approval recorded".to_owned());
    }
    assert(texts(operator@) =~= if plan.decision.is_authorized && !plan.decision.automatic {
        seq!["Operator approval recorded"@]
    } else {
        Seq::<Seq<char>>::empty()
    });
    let strategy = if plan.strategies.len() > 0 {
        plan.strategies[0].duplicate()
    } else {
        plan.decision.recommended_strategy.duplicate()
    };
    let mut impact = "disruption_score=".to_owned();
    append_dec(&mut impact, plan.decision.mission_disruption_score as u64);
    impact.append(" upstream=");
    append_dec(&mut impact, plan.upstream_impact.len() as u64);
    impact.append(" downstream=");
    append_dec(&mut impact, plan.downstream_impact.len() as u64);
    let mut id = "rcv-".to_owned();
    if now_millis < 0 {
        id.append("-");
        let magnitude: u64 = (0i128 - now_millis as i128) as u64;
        append_dec(&mut id, magnitude);
    } else {
        append_dec(&mut id, now_millis as u64);
    }
    assert(impact@ =~= "disruption_score="@ + dec_text(plan.decision.mission_disruption_score as nat) + " upstream="@
        + dec_text(plan.upstream_impact@.len()) + " downstream="@ + dec_text(plan.downstream_impact@.len()));
    assert(id@ =~= "rcv-"@ + signed_dec(now_millis as int));
    assert forall|t: Seq<char>|
        has_text(entities@, t) <==> (t == plan.entity_id@ || has_text(plan.upstream_impact@, t) || has_text(
            plan.downstream_impact@,
            t,
        )) by {
        assert(has_text(entities@, t) <==> (has_text(e2, t) || has_text(plan.downstream_impact@, t)));
        assert(has_text(e2, t) <==> (has_text(e1, t) || has_text(plan.upstream_impact@, t)));
        assert(has_text(e1, t) <==> (has_text(Seq::<String>::empty(), t) || t == plan.entity_id@));
    }
    let timeline = build_timeline(plan, duration_secs, now);
    OrchestratorRecoveryEvidence {
        evidence_id: id,
        root_cause: plan.failure.clone(),
        strategy,
        timeline,
        entities_involved: entities,
        safety_validation: pass_string(validation.security_verification),
        readiness_result: pass_string(validation.readiness_verification),
        trust_result: pass_string(validation.trust_verification),
        operator_actions: operator,
        automatic_decisions: automatic,
        mission_impact: impact,
        duration_secs,
        status,
        timestamp: now.to_owned(),
    }
}


/// A simulation run's plan for one target: like an orchestrated plan, but
/// named after the failure too, with the requested playbook (or the first
/// that answers the failure), plugin strategies, and the duration (30 s per
/// action) and risk of the recovery planner's plan.
pub open spec fn simulation_plan_ok(
    reg: EntityRegistry,
    policies: Seq<EntityRecoveryPolicy>,
    playbooks: Seq<RecoveryPlaybook>,
    requested: Option<&str>,
    plugins: Option<&RecoveryPluginRegistry>,
    graph: RecoveryGraph,
    entity_id: Seq<char>,
    failure: Seq<char>,
    classification: FailureClassification,
    diagnosis: Seq<char>,
    action_count: u64,
    risk: Seq<char>,
    p: OrchestratedRecoveryPlan,
) -> bool {
    match entity_named(reg, entity_id) {
        Some(e) => {
            &&& p.plan_id@ == "plan-"@ + entity_id + "-"@ + underscored(failure)
            &&& p.entity_id@ == entity_id
            &&& p.entity_kind == e.entity_type
            &&& p.failure@ == failure
            &&& p.classification == classification
            &&& p.diagnosis@ == diagnosis
            &&& is_recovery_decision(e, failure, policies, reg, classification, p.decision)
            &&& p.escalation_level == p.decision.recommended_level
            &&& strategies_ok(playbooks, requested, failure, p.decision.recommended_strategy, plugins, p.playbook, p.strategies@)
            &&& p.estimated_duration_secs == action_count * 30
            &&& p.risk@ == risk
            &&& impact_of(graph, entity_id, p.upstream_impact@, p.downstream_impact@)
        },
        None => false,
    }
}

/// The plan a simulation run makes for one target; `None` when no entity
/// has the id. The diagnosis, action count and risk are those of the
/// recovery planner's plan for the failure.
pub fn simulation_plan(
    registry: &EntityRegistry,
    policies: &[EntityRecoveryPolicy],
    playbooks: &Vec<RecoveryPlaybook>,
    requested: Option<&str>,
    plugins: Option<&RecoveryPluginRegistry>,
    graph: &RecoveryGraph,
    entity_id: &str,
    failure: &str,
    classification: FailureClassification,
    diagnosis: &str,
    action_count: u64,
    risk: &str,
) -> (r: Option<OrchestratedRecoveryPlan>)
    requires
        action_count * 30 <= u64::MAX,
    ensures
        match r {
            Some(p) => simulation_plan_ok(
                *registry,
                policies@,
                playbooks@,
                requested,
                plugins,
                *graph,
                entity_id@,
                failure@,
                classification,
                diagnosis@,
                action_count,
                risk@,
                p,
            ),
            None => entity_named(*registry, entity_id@) is None,
        },
{
    let entity = match get_named(registry, entity_id) {
        Some(e) => e,
        None => {
            return None;
        },
    };
    let decision = decide_recovery(entity, failure, policies, registry, classification);
    let (playbook, strategies) = plan_strategies(playbooks, requested, failure, &decision.recommended_strategy, plugins);
    let level = decision.recommended_level;
    let mut plan = OrchestratedRecoveryPlan {
        plan_id: plan_id(entity_id, failure),
        entity_id: entity_id.to_owned(),
        entity_kind: entity.entity_type,
        failure: failure.to_owned(),
        classification,
        diagnosis: diagnosis.to_owned(),
        strategies,
        escalation_level: level,
        decision,
        playbook,
        upstream_impact: Vec::new(),
        downstream_impact: Vec::new(),
        estimated_duration_secs: action_count * 30,
        risk: risk.to_owned(),
    };
    enrich_plan_with_impact(&mut plan, graph);
    Some(plan)
}
/// The recorded recovery evidence, oldest first.
#[derive(Debug, Clone)]
pub struct RecoveryHistoryStore {
    pub evidence: Vec<OrchestratorRecoveryEvidence>,
}

impl Default for RecoveryHistoryStore {
    /// An empty history.
    fn default() -> (r: RecoveryHistoryStore)
        ensures
            r.evidence@.len() == 0,
    {
        RecoveryHistoryStore { evidence: Vec::new() }
    }
}

impl RecoveryHistoryStore {
    /// Record one more piece of evidence, after all the others.
    pub fn record(&mut self, evidence: OrchestratorRecoveryEvidence)
        ensures
            final(self).evidence@ == old(self).evidence@.push(evidence),
    {
        self.evidence.push(evidence);
    }

    /// The most recent evidence, newest first, at most `limit` of it.
    pub fn recent(&self, limit: usize) -> (r: Vec<&OrchestratorRecoveryEvidence>)
        ensures
            r@.len() == if limit < self.evidence@.len() { limit as int } else { self.evidence@.len() as int },
            forall|k: int| 0 <= k < r@.len() ==> *(#[trigger] r@[k]) == self.evidence@[self.evidence@.len() - 1 - k],
    {
        let n = self.evidence.len();
        let m: usize = if limit < n { limit } else { n };
        let mut out: Vec<&OrchestratorRecoveryEvidence> = Vec::new();
        let mut k: usize = 0;
        while k < m
            invariant
                m <= n,
                n == self.evidence@.len(),
                k <= m,
                out@.len() == k,
                forall|j: int| 0 <= j < k ==> *(#[trigger] out@[j]) == self.evidence@[n - 1 - j],
            decreases m - k,
        {
            out.push(&self.evidence[n - 1 - k]);
            k = k + 1;
        }
        out
    }
}

} // verus!
