//! Recovery decision engine — recovery authorization and strategy selection.
use vstd::prelude::*;
use crate::text::{append_strings, opt_text, texts, dec_string, dec_text, seq_contains, str_contains, str_eq};
use crate::recovery::entity::{EntityHealthStatus, EntityKind, EntityRecord, EntityRegistry};
use crate::recovery::policy::{
    evaluate_policy, is_first_policy_for, policy_for_entity, spec_evaluate_policy, EntityRecoveryPolicy,
};
use crate::recovery::types::{FailureClassification, OrchestratorStrategy, RecoveryEscalationLevel};

verus! {

/// Recovery decision from the decision engine.
#[derive(Debug, Clone)]
pub struct RecoveryDecision {
    pub can_recover: bool,
    pub should_recover: bool,
    pub is_safe: bool,
    pub is_authorized: bool,
    pub automatic: bool,
    pub recommended_strategy: OrchestratorStrategy,
    pub recommended_level: RecoveryEscalationLevel,
    pub lowest_risk_strategy: OrchestratorStrategy,
    pub mission_disruption_score: u32,
    pub estimated_downtime_secs: u64,
    pub backup_entity_id: Option<String>,
    pub explanations: Vec<String>,
}

/// The strategy recommended for a failure class on an entity of this kind.
pub open spec fn spec_strategy_for(c: FailureClassification, kind: EntityKind) -> OrchestratorStrategy {
    match c {
        FailureClassification::SensorFailure => OrchestratorStrategy::SwitchSensor,
        FailureClassification::ActuatorFailure => OrchestratorStrategy::Reinitialize,
        FailureClassification::ConnectivityFailure => OrchestratorStrategy::Reconnect,
        FailureClassification::ProviderFailure => OrchestratorStrategy::SwitchProvider,
        FailureClassification::PackageFailure => OrchestratorStrategy::RestartPackage,
        FailureClassification::MissionFailure => OrchestratorStrategy::TransferMission,
        FailureClassification::HealthDegradation => OrchestratorStrategy::GracefulDegradation,
        FailureClassification::FleetFailure => OrchestratorStrategy::RestartFleet,
        FailureClassification::SwarmFailure => OrchestratorStrategy::RestartFleet,
        FailureClassification::SafetyFailure => OrchestratorStrategy::HumanEscalation,
        FailureClassification::Unknown => if seq_contains(kind.spec_as_str(), "robot"@) {
            OrchestratorStrategy::RestartRobot
        } else {
            OrchestratorStrategy::Retry
        },
    }
}

fn strategy_for_classification(c: FailureClassification, entity: &EntityRecord) -> (r:
    OrchestratorStrategy)
    ensures
        r == spec_strategy_for(c, entity.entity_type),
{
    match c {
        FailureClassification::SensorFailure => OrchestratorStrategy::SwitchSensor,
        FailureClassification::ActuatorFailure => OrchestratorStrategy::Reinitialize,
        FailureClassification::ConnectivityFailure => OrchestratorStrategy::Reconnect,
        FailureClassification::ProviderFailure => OrchestratorStrategy::SwitchProvider,
        FailureClassification::PackageFailure => OrchestratorStrategy::RestartPackage,
        FailureClassification::MissionFailure => OrchestratorStrategy::TransferMission,
        FailureClassification::HealthDegradation => OrchestratorStrategy::GracefulDegradation,
        FailureClassification::FleetFailure => OrchestratorStrategy::RestartFleet,
        FailureClassification::SwarmFailure => OrchestratorStrategy::RestartFleet,
        FailureClassification::SafetyFailure => OrchestratorStrategy::HumanEscalation,
        FailureClassification::Unknown => {
            if str_contains(entity.entity_type.as_str(), "robot") {
                OrchestratorStrategy::RestartRobot
            } else {
                OrchestratorStrategy::Retry
            }
        },
    }
}

/// The least disruptive strategy for a failure class.
pub open spec fn spec_lowest_risk(c: FailureClassification) -> OrchestratorStrategy {
    match c {
        FailureClassification::SafetyFailure => OrchestratorStrategy::HumanEscalation,
        FailureClassification::ConnectivityFailure => OrchestratorStrategy::Retry,
        FailureClassification::SensorFailure => OrchestratorStrategy::Retry,
        _ => OrchestratorStrategy::GracefulDegradation,
    }
}

fn lowest_risk_strategy(c: FailureClassification) -> (r: OrchestratorStrategy)
    ensures
        r == spec_lowest_risk(c),
{
    match c {
        FailureClassification::SafetyFailure => OrchestratorStrategy::HumanEscalation,
        FailureClassification::ConnectivityFailure => OrchestratorStrategy::Retry,
        FailureClassification::SensorFailure => OrchestratorStrategy::Retry,
        _ => OrchestratorStrategy::GracefulDegradation,
    }
}

/// Mission disruption score of recovering at a level.
pub open spec fn spec_disruption(l: RecoveryEscalationLevel) -> u32 {
    match l {
        RecoveryEscalationLevel::Level0Retry => 5,
        RecoveryEscalationLevel::Level1RestartComponent => 15,
        RecoveryEscalationLevel::Level2RestartPackage => 25,
        RecoveryEscalationLevel::Level3RecoverDevice => 40,
        RecoveryEscalationLevel::Level4RecoverRobot => 55,
        RecoveryEscalationLevel::Level5MissionReassign => 70,
        RecoveryEscalationLevel::Level6FleetRedistribute => 80,
        RecoveryEscalationLevel::Level7HumanIntervention => 90,
        RecoveryEscalationLevel::Level8EmergencyShutdown => 100,
    }
}

/// Mission disruption score of recovering at a level.
pub fn disruption_score(l: RecoveryEscalationLevel) -> (r: u32)
    ensures
        r == spec_disruption(l),
{
    match l {
        RecoveryEscalationLevel::Level0Retry => 5,
        RecoveryEscalationLevel::Level1RestartComponent => 15,
        RecoveryEscalationLevel::Level2RestartPackage => 25,
        RecoveryEscalationLevel::Level3RecoverDevice => 40,
        RecoveryEscalationLevel::Level4RecoverRobot => 55,
        RecoveryEscalationLevel::Level5MissionReassign => 70,
        RecoveryEscalationLevel::Level6FleetRedistribute => 80,
        RecoveryEscalationLevel::Level7HumanIntervention => 90,
        RecoveryEscalationLevel::Level8EmergencyShutdown => 100,
    }
}

/// Estimated downtime, in seconds, of recovering at a level.
pub open spec fn spec_downtime(l: RecoveryEscalationLevel) -> u64 {
    match l {
        RecoveryEscalationLevel::Level0Retry => 5,
        RecoveryEscalationLevel::Level1RestartComponent => 30,
        RecoveryEscalationLevel::Level2RestartPackage => 60,
        RecoveryEscalationLevel::Level3RecoverDevice => 120,
        RecoveryEscalationLevel::Level4RecoverRobot => 180,
        RecoveryEscalationLevel::Level5MissionReassign => 300,
        RecoveryEscalationLevel::Level6FleetRedistribute => 600,
        RecoveryEscalationLevel::Level7HumanIntervention => 1800,
        RecoveryEscalationLevel::Level8EmergencyShutdown => 60,
    }
}

/// Estimated downtime, in seconds, of recovering at a level.
pub fn estimated_downtime(l: RecoveryEscalationLevel) -> (r: u64)
    ensures
        r == spec_downtime(l),
{
    match l {
        RecoveryEscalationLevel::Level0Retry => 5,
        RecoveryEscalationLevel::Level1RestartComponent => 30,
        RecoveryEscalationLevel::Level2RestartPackage => 60,
        RecoveryEscalationLevel::Level3RecoverDevice => 120,
        RecoveryEscalationLevel::Level4RecoverRobot => 180,
        RecoveryEscalationLevel::Level5MissionReassign => 300,
        RecoveryEscalationLevel::Level6FleetRedistribute => 600,
        RecoveryEscalationLevel::Level7HumanIntervention => 1800,
        RecoveryEscalationLevel::Level8EmergencyShutdown => 60,
    }
}

/// A healthy peer of the same kind can take over.
pub open spec fn same_kind_backup(e: EntityRecord, failed: EntityRecord) -> bool {
    e.id@ != failed.id@ && e.entity_type == failed.entity_type && !(e.health_status
        is Critical || e.health_status is Offline)
}

/// A robot that is not critical can take over a fleet or mission failure.
pub open spec fn robot_backup(e: EntityRecord, failed: EntityRecord) -> bool {
    e.entity_type.spec_as_str() == "robot"@ && e.id@ != failed.id@ && !(e.health_status
        is Critical)
}

/// `es[i]` is the first healthy peer of `failed` with its kind.
pub open spec fn first_same_kind(es: Seq<EntityRecord>, failed: EntityRecord, i: int) -> bool {
    0 <= i < es.len() && same_kind_backup(es[i], failed) && forall|j: int|
        0 <= j < i ==> !same_kind_backup(#[trigger] es[j], failed)
}

/// `es[i]` is the first robot that can stand in for `failed`.
pub open spec fn first_robot(es: Seq<EntityRecord>, failed: EntityRecord, i: int) -> bool {
    0 <= i < es.len() && robot_backup(es[i], failed) && forall|j: int|
        0 <= j < i ==> !robot_backup(#[trigger] es[j], failed)
}

/// The backup chosen for `failed`: the first healthy peer of the same kind;
/// failing that, for fleet and mission failures, the first non-critical robot.
#[verifier::opaque]
pub open spec fn is_backup_choice(
    es: Seq<EntityRecord>,
    failed: EntityRecord,
    c: FailureClassification,
    r: Option<Seq<char>>,
) -> bool {
    if exists|i: int| 0 <= i < es.len() && same_kind_backup(#[trigger] es[i], failed) {
        exists|i: int| first_same_kind(es, failed, i) && r == Some(es[i].id@)
    } else if (c is FleetFailure || c is MissionFailure) && exists|i: int|
        0 <= i < es.len() && robot_backup(#[trigger] es[i], failed) {
        exists|i: int| first_robot(es, failed, i) && r == Some(es[i].id@)
    } else {
        r is None
    }
}

fn find_backup_entity(
    registry: &EntityRegistry,
    entity: &EntityRecord,
    classification: FailureClassification,
) -> (r: Option<String>)
    ensures
        is_backup_choice(registry.entities@, *entity, classification, opt_text(r)),
{
    reveal(is_backup_choice);
    let es = registry.list();
    let mut i: usize = 0;
    while i < es.len()
        invariant
            es@ == registry.entities@,
            i <= es.len(),
            forall|j: int| 0 <= j < i ==> !same_kind_backup(#[trigger] es@[j], *entity),
        decreases es.len() - i,
    {
        let e = &es[i];
        let bad = match e.health_status {
            EntityHealthStatus::Critical | EntityHealthStatus::Offline => true,
            _ => false,
        };
        if !str_eq(e.id.as_str(), entity.id.as_str()) && e.entity_type == entity.entity_type
            && !bad {
            assert(first_same_kind(es@, *entity, i as int));
            proof {
                reveal(is_backup_choice);
            }
            return Some(e.id.clone());
        }
        i = i + 1;
    }
    let fleet_or_mission = match classification {
        FailureClassification::FleetFailure | FailureClassification::MissionFailure => true,
        _ => false,
    };
    if fleet_or_mission {
        let mut k: usize = 0;
        while k < es.len()
            invariant
                es@ == registry.entities@,
                forall|j: int| 0 <= j < es.len() ==> !same_kind_backup(#[trigger] es@[j], *entity),
                k <= es.len(),
                classification is FleetFailure || classification is MissionFailure,
                forall|j: int| 0 <= j < k ==> !robot_backup(#[trigger] es@[j], *entity),
            decreases es.len() - k,
        {
            let e = &es[k];
            let critical = match e.health_status {
                EntityHealthStatus::Critical => true,
                _ => false,
            };
            if str_eq(e.entity_type.as_str(), "robot") && !str_eq(e.id.as_str(), entity.id.as_str())
                && !critical {
                assert(first_robot(es@, *entity, k as int));
                proof {
                    reveal(is_backup_choice);
                }
                return Some(e.id.clone());
            }
            k = k + 1;
        }
    }
    None
}

/// The policy that applies to an entity, whether it allows the recommended
/// recovery, and what it says: the first policy for the entity's id, or none
/// (allowed, platform defaults).
#[verifier::opaque]
pub open spec fn policy_outcome(
    policies: Seq<EntityRecoveryPolicy>,
    id: Seq<char>,
    strategy: OrchestratorStrategy,
    level: RecoveryEscalationLevel,
) -> (Option<EntityRecoveryPolicy>, bool, Seq<Seq<char>>) {
    if exists|i: int| is_first_policy_for(policies, id, i) {
        let i = choose|i: int| is_first_policy_for(policies, id, i);
        let v = spec_evaluate_policy(policies[i], strategy, level);
        (Some(policies[i]), v.0, v.1)
    } else {
        (None, true, seq!["No specific policy — using platform defaults"@])
    }
}

pub open spec fn spec_can_recover(entity: EntityRecord, failure: Seq<char>) -> bool {
    !(entity.health_status is Offline) || seq_contains(failure, "offline"@) || seq_contains(
        failure,
        "failed"@,
    )
}

pub open spec fn msg_eligible(entity: EntityRecord) -> Seq<char> {
    "Entity '"@ + entity.id@ + "' ("@ + entity.entity_type.spec_as_str()
        + ") is eligible for recovery"@
}

pub open spec fn msg_backup(id: Seq<char>) -> Seq<char> {
    "Backup entity '"@ + id + "' available"@
}

pub open spec fn msg_lowest_risk(label: Seq<char>, score: u32) -> Seq<char> {
    "Lowest-risk strategy: '"@ + label + "' (disruption score "@ + dec_text(score as nat) + ")"@
}

/// The opening explanations: eligibility, and whether the failure warrants action.
pub open spec fn part_eligibility(entity: EntityRecord, failure: Seq<char>) -> Seq<Seq<char>> {
    let can = spec_can_recover(entity, failure);
    seq![
        if can { msg_eligible(entity) } else { "Entity is offline with no recoverable state"@ },
    ] + (if failure.len() > 0 && can {
        seq!["Failure '"@ + failure + "' warrants recovery action"@]
    } else {
        Seq::empty()
    })
}

/// The explanation of the safety check.
pub open spec fn part_safety(safe: bool, c: FailureClassification) -> Seq<Seq<char>> {
    if safe {
        seq!["Recovery action passes safety checks"@]
    } else if c is SafetyFailure {
        seq!["Safety failure — only human-approved recovery permitted"@]
    } else {
        Seq::empty()
    }
}

/// The explanation of the approval requirement.
pub open spec fn msg_approval(needs_approval: bool) -> Seq<char> {
    if needs_approval {
        "Recovery requires operator approval"@
    } else {
        "Recovery authorized for automatic execution"@
    }
}

/// The explanation of the backup, if there is one.
pub open spec fn part_backup(b: Option<Seq<char>>) -> Seq<Seq<char>> {
    match b {
        Some(id) => seq![msg_backup(id)],
        None => Seq::empty(),
    }
}

/// Everything `decide_recovery` returns for a failure of `entity`.
pub open spec fn is_recovery_decision(
    entity: EntityRecord,
    failure: Seq<char>,
    policies: Seq<EntityRecoveryPolicy>,
    registry: EntityRegistry,
    c: FailureClassification,
    d: RecoveryDecision,
) -> bool {
    let rec = spec_strategy_for(c, entity.entity_type);
    let level = rec.spec_default_level();
    let po = policy_outcome(policies, entity.id@, rec, level);
    let can = spec_can_recover(entity, failure);
    let should = failure.len() > 0 && can;
    let safe = po.1 && !(c is SafetyFailure) && level.rank() < 8;
    let needs_approval = (po.0 matches Some(p) && p.requires_approval) || level.rank() >= 7
        || c is SafetyFailure;
    let authorized = !needs_approval || level.rank() <= 2;
    let lowest = spec_lowest_risk(c);
    let score = spec_disruption(level);
    &&& d.can_recover == can
    &&& d.should_recover == should
    &&& d.is_safe == safe
    &&& d.is_authorized == authorized
    &&& d.automatic == (authorized && safe && should && po.1)
    &&& d.recommended_strategy == rec
    &&& d.recommended_level == level
    &&& d.lowest_risk_strategy == lowest
    &&& d.mission_disruption_score == score
    &&& d.estimated_downtime_secs == spec_downtime(level)
    &&& is_backup_choice(registry.entities@, entity, c, opt_text(d.backup_entity_id))
    &&& texts(d.explanations@) == part_eligibility(entity, failure) + po.2 + part_safety(safe, c)
        + seq![msg_approval(needs_approval)] + part_backup(opt_text(d.backup_entity_id))
        + seq![msg_lowest_risk(lowest.spec_label(), score)]
}

fn eligibility(entity: &EntityRecord, failure: &str) -> (r: (bool, bool, Vec<String>))
    ensures
        r.0 == spec_can_recover(*entity, failure@),
        r.1 == (failure@.len() > 0 && r.0),
        texts(r.2@) == part_eligibility(*entity, failure@),
{
    let mut explanations: Vec<String> = Vec::new();
    let offline = match entity.health_status {
        EntityHealthStatus::Offline => true,
        _ => false,
    };
    let can_recover = !offline || str_contains(failure, "offline") || str_contains(failure, "failed");
    if can_recover {
        let mut m = "Entity '".to_owned();
        m.append(entity.id.as_str());
        m.append("' (");
        m.append(entity.entity_type.as_str());
        m.append(") is eligible for recovery");
        explanations.push(m);
    } else {
        explanations.push("Entity is offline with no recoverable state".to_owned());
    }
    let should_recover = !failure.is_empty() && can_recover;
    if should_recover {
        let mut m = "Failure '".to_owned();
        m.append(failure);
        m.append("' warrants recovery action");
        explanations.push(m);
    }
    assert(texts(explanations@) =~= part_eligibility(*entity, failure@));
    (can_recover, should_recover, explanations)
}

fn policy_check(
    policies: &[EntityRecoveryPolicy],
    entity_id: &str,
    recommended: &OrchestratorStrategy,
    level: RecoveryEscalationLevel,
) -> (r: (bool, bool, Vec<String>))
    ensures
        ({
            let po = policy_outcome(policies@, entity_id@, *recommended, level);
            &&& r.0 == (po.0 matches Some(p) && p.requires_approval)
            &&& r.1 == po.1
            &&& texts(r.2@) == po.2
        }),
{
    let policy = policy_for_entity(policies, entity_id);
    let (policy_ok, policy_msgs) = match policy {
        Some(p) => evaluate_policy(p, recommended, level),
        None => (true, vec!["No specific policy — using platform defaults".to_owned()]),
    };
    let needs_approval = match policy {
        Some(p) => p.requires_approval,
        None => false,
    };
    proof {
        reveal(policy_outcome);
        let po = policy_outcome(policies@, entity_id@, *recommended, level);
        match policy {
            Some(p) => {
                let i = choose|i: int| is_first_policy_for(policies@, entity_id@, i) && policies@[i] == *p;
                let k = choose|k: int| is_first_policy_for(policies@, entity_id@, k);
                if i < k {
                    assert(policies@[i].entity_id@ != entity_id@);
                } else if k < i {
                    assert(policies@[k].entity_id@ != entity_id@);
                }
                assert(po.0 == Some(*p));
            },
            None => {
                if exists|k: int| is_first_policy_for(policies@, entity_id@, k) {
                    let k = choose|k: int| is_first_policy_for(policies@, entity_id@, k);
                    assert(policies@[k].entity_id@ != entity_id@);
                }
                assert(texts(policy_msgs@) =~= seq!["No specific policy — using platform defaults"@]);
            },
        }
    }
    (needs_approval, policy_ok, policy_msgs)
}

/// Make a recovery decision for an entity failure of the given class.
#[verifier::spinoff_prover]
#[verifier::rlimit(60)]
pub fn decide_recovery(
    entity: &EntityRecord,
    failure: &str,
    policies: &[EntityRecoveryPolicy],
    registry: &EntityRegistry,
    classification: FailureClassification,
) -> (d: RecoveryDecision)
    ensures
        is_recovery_decision(*entity, failure@, policies@, *registry, classification, d),
{
    let recommended = strategy_for_classification(classification, entity);
    let level = recommended.default_escalation_level();
    let (can_recover, should_recover, mut explanations) = eligibility(entity, failure);
    let (policy_requires, policy_ok, policy_msgs) = policy_check(
        policies,
        entity.id.as_str(),
        &recommended,
        level,
    );
    append_strings(&mut explanations, policy_msgs);
    let ghost po = policy_outcome(policies@, entity.id@, recommended, level);
    let ghost e2 = texts(explanations@);
    assert(e2 == part_eligibility(*entity, failure@) + po.2);

    let safety_failure = match classification {
        FailureClassification::SafetyFailure => true,
        _ => false,
    };
    let is_safe = policy_ok && !safety_failure && level.as_u8() < 8;
    let ghost e3 = texts(explanations@);
    if is_safe {
        explanations.push("Recovery action passes safety checks".to_owned());
    } else if safety_failure {
        explanations.push("Safety failure — only human-approved recovery permitted".to_owned());
    }
    assert(texts(explanations@) =~= e3 + part_safety(is_safe, classification));

    let requires_approval = policy_requires || level.as_u8() >= 7 || safety_failure;
    let is_authorized = !requires_approval || level.as_u8() <= 2;
    if requires_approval {
        explanations.push("Recovery requires operator approval".to_owned());
    } else {
        explanations.push("Recovery authorized for automatic execution".to_owned());
    }
    let ghost e5 = texts(explanations@);

    let automatic = is_authorized && is_safe && should_recover && policy_ok;
    let lowest_risk = lowest_risk_strategy(classification);
    let backup = find_backup_entity(registry, entity, classification);
    let mission_disruption = disruption_score(level);
    let downtime = estimated_downtime(level);

    match &backup {
        Some(backup_id) => {
            let mut m = "Backup entity '".to_owned();
            m.append(backup_id.as_str());
            m.append("' available");
            explanations.push(m);
        },
        None => {},
    }
    assert(texts(explanations@) =~= e5 + part_backup(opt_text(backup)));
    let ghost e6 = texts(explanations@);

    let mut m = "Lowest-risk strategy: '".to_owned();
    m.append(lowest_risk.label());
    m.append("' (disruption score ");
    let score_text = dec_string(mission_disruption as u64);
    m.append(score_text.as_str());
    m.append(")");
    explanations.push(m);
    assert(texts(explanations@) =~= e6.push(msg_lowest_risk(lowest_risk.spec_label(), mission_disruption)));

    assert(is_backup_choice(registry.entities@, *entity, classification, opt_text(backup)));
    assert(is_safe == (po.1 && !(classification is SafetyFailure) && level.rank() < 8));
    assert(texts(explanations@) =~= part_eligibility(*entity, failure@) + po.2 + part_safety(is_safe, classification)
        + seq![msg_approval(requires_approval)] + part_backup(opt_text(backup))
        + seq![msg_lowest_risk(lowest_risk.spec_label(), mission_disruption)]);
    RecoveryDecision {
        can_recover,
        should_recover,
        is_safe,
        is_authorized,
        automatic,
        recommended_strategy: recommended,
        recommended_level: level,
        lowest_risk_strategy: lowest_risk,
        mission_disruption_score: mission_disruption,
        estimated_downtime_secs: downtime,
        backup_entity_id: backup,
        explanations,
    }
}

/// A decision is automatic only when recovery is authorized, safe and
/// warranted; a warranted recovery is always possible.
pub proof fn law_automatic_needs_authorized_safe_warranted(
    entity: EntityRecord,
    failure: Seq<char>,
    policies: Seq<EntityRecoveryPolicy>,
    registry: EntityRegistry,
    c: FailureClassification,
    d: RecoveryDecision,
)
    requires
        is_recovery_decision(entity, failure, policies, registry, c, d),
    ensures
        d.automatic ==> d.is_authorized && d.is_safe && d.should_recover,
        d.should_recover ==> d.can_recover,
{
}

/// A safety failure is never judged safe nor recovered automatically: it is
/// escalated to a human, who must approve.
pub proof fn law_safety_failure_escalates_to_human(
    entity: EntityRecord,
    failure: Seq<char>,
    policies: Seq<EntityRecoveryPolicy>,
    registry: EntityRegistry,
    d: RecoveryDecision,
)
    requires
        is_recovery_decision(entity, failure, policies, registry, FailureClassification::SafetyFailure, d),
    ensures
        !d.is_safe,
        !d.automatic,
        d.recommended_strategy == OrchestratorStrategy::HumanEscalation,
        d.lowest_risk_strategy == OrchestratorStrategy::HumanEscalation,
        d.recommended_level == RecoveryEscalationLevel::Level7HumanIntervention,
{
}

/// A recovery judged safe never goes as far as an emergency shutdown.
pub proof fn law_safe_recovery_below_shutdown(
    entity: EntityRecord,
    failure: Seq<char>,
    policies: Seq<EntityRecoveryPolicy>,
    registry: EntityRegistry,
    c: FailureClassification,
    d: RecoveryDecision,
)
    requires
        is_recovery_decision(entity, failure, policies, registry, c, d),
    ensures
        d.is_safe ==> d.recommended_level.rank() < 8 && !(c is SafetyFailure),
{
}

/// Mission disruption grows with the escalation level.
pub proof fn law_disruption_grows_with_level(a: RecoveryEscalationLevel, b: RecoveryEscalationLevel)
    requires
        a.rank() <= b.rank(),
    ensures
        spec_disruption(a) <= spec_disruption(b),
{
}

/// When the entity's policy (the first one naming it) requires approval and
/// the recommended recovery goes beyond restarting a package, the decision
/// is neither authorized nor automatic, and says that it needs an operator.
pub proof fn law_policy_approval_withholds_authorization(
    entity: EntityRecord,
    failure: Seq<char>,
    policies: Seq<EntityRecoveryPolicy>,
    registry: EntityRegistry,
    c: FailureClassification,
    d: RecoveryDecision,
    k: int,
)
    requires
        is_recovery_decision(entity, failure, policies, registry, c, d),
        0 <= k < policies.len(),
        policies[k].entity_id@ == entity.id@,
        forall|j: int| 0 <= j < k ==> (#[trigger] policies[j]).entity_id@ != entity.id@,
        policies[k].requires_approval,
        d.recommended_level.rank() > 2,
    ensures
        !d.is_authorized,
        !d.automatic,
        texts(d.explanations@).contains("Recovery requires operator approval"@),
{
    reveal(policy_outcome);
    let rec = spec_strategy_for(c, entity.entity_type);
    let level = rec.spec_default_level();
    let po = policy_outcome(policies, entity.id@, rec, level);
    assert(is_first_policy_for(policies, entity.id@, k));
    let i = choose|i: int| is_first_policy_for(policies, entity.id@, i);
    if i < k {
        assert(policies[i].entity_id@ != entity.id@);
    } else if k < i {
        assert(policies[k].entity_id@ != entity.id@);
    }
    assert(po.0 == Some(policies[k]));
    let safe = po.1 && !(c is SafetyFailure) && level.rank() < 8;
    let a = part_eligibility(entity, failure) + po.2 + part_safety(safe, c);
    let t = texts(d.explanations@);
    assert(t[a.len() as int] == msg_approval(true));
}

} // verus!
