//! Orchestrated recovery plans, timelines and evidence, and the transient
//! behaviour of plans built from the registry.

use spanda_platform::recovery::entity::{
    EntityHealthStatus, EntityKind, EntityReadinessStatus, EntityRecord, EntityRegistry, EntityRelationship,
    EntityRelationshipKind, EntityTrustStatus,
};
use spanda_platform::recovery::learning::RecoveryOutcomeStatus;
use spanda_platform::recovery::graph::build_recovery_graph;
use spanda_platform::recovery::orchestration::{
    build_orchestrated_plan, build_timeline, generate_evidence, simulation_plan, RecoveryHistoryStore,
};
use spanda_platform::recovery::playbook::default_playbooks;
use spanda_platform::recovery::types::FailureClassification;
use spanda_platform::recovery::validation::{validate_recovery, ActionCheck};

fn record(id: &str, kind: EntityKind, health: EntityHealthStatus) -> EntityRecord {
    EntityRecord {
        id: id.to_string(),
        entity_type: kind,
        health_status: health,
        readiness_status: EntityReadinessStatus::Ready,
        trust_status: EntityTrustStatus::Trusted,
        name: None,
        display_name: None,
        parent_id: None,
        children_ids: Vec::new(),
        capabilities: Vec::new(),
        package: None,
        provider: None,
    }
}

fn registry() -> EntityRegistry {
    EntityRegistry {
        entities: vec![
            record("robot-1", EntityKind::Robot, EntityHealthStatus::Degraded),
            record("lidar-1", EntityKind::Sensor, EntityHealthStatus::Warning),
            record("fleet-1", EntityKind::Fleet, EntityHealthStatus::Healthy),
        ],
        relationships: vec![
            EntityRelationship {
                from_id: "robot-1".to_string(),
                to_id: "lidar-1".to_string(),
                kind: EntityRelationshipKind::DependsOn,
            },
            EntityRelationship {
                from_id: "fleet-1".to_string(),
                to_id: "robot-1".to_string(),
                kind: EntityRelationshipKind::DependsOn,
            },
        ],
    }
}

#[test]
fn recovery_planning_produces_orchestrated_plan() {
    let reg = registry();
    let playbooks = default_playbooks();
    let plan = build_orchestrated_plan(
        &reg,
        &[],
        &playbooks,
        "robot-1",
        "lidar sensor failed",
        FailureClassification::SensorFailure,
        "lidar returns no points",
    )
    .unwrap();
    assert_eq!(plan.plan_id, "plan-robot-1");
    assert_eq!(plan.entity_kind, EntityKind::Robot);
    assert_eq!(plan.playbook.as_deref(), Some("sensor_failure"));
    assert!(!plan.strategies.is_empty());
    assert_eq!(plan.escalation_level, plan.decision.recommended_level);
    assert_eq!(plan.upstream_impact, vec!["lidar-1".to_string()]);
    assert_eq!(plan.downstream_impact, vec!["fleet-1".to_string()]);
    assert_eq!(plan.estimated_duration_secs, 60);
    assert_eq!(plan.risk, "medium");
    assert!(plan.decision.can_recover);
    assert!(build_orchestrated_plan(&reg, &[], &playbooks, "ghost", "x", FailureClassification::Unknown, "").is_none());
}

#[test]
fn plan_without_playbook_uses_recommended_strategy() {
    let reg = registry();
    let plan = build_orchestrated_plan(
        &reg,
        &[],
        &Vec::new(),
        "robot-1",
        "gps_loss",
        FailureClassification::SensorFailure,
        "",
    )
    .unwrap();
    assert!(plan.playbook.is_none());
    assert_eq!(plan.strategies, vec![plan.decision.recommended_strategy.clone()]);
}

#[test]
fn timeline_splits_duration_into_five_phases() {
    let reg = registry();
    let plan = build_orchestrated_plan(
        &reg,
        &[],
        &default_playbooks(),
        "robot-1",
        "lidar sensor failed",
        FailureClassification::SensorFailure,
        "no points",
    )
    .unwrap();
    let t = build_timeline(&plan, 10, "2026-01-01T00:00:00Z");
    let phases: Vec<&str> = t.iter().map(|e| e.phase.as_str()).collect();
    assert_eq!(phases, vec!["detect", "diagnose", "plan", "validate", "complete"]);
    assert!(t.iter().all(|e| e.duration_ms == 2000 && e.timestamp == "2026-01-01T00:00:00Z"));
    assert_eq!(t[0].description, "Detected failure: lidar sensor failed");
    assert_eq!(t[1].description, "no points");
    assert_eq!(t[2].description, format!("Plan plan-robot-1 with {} strategies", plan.strategies.len()));
    assert_eq!(t[4].description, "Recovery completed — risk medium");
    assert_eq!(build_timeline(&plan, u64::MAX, "")[0].duration_ms, u64::MAX / 5);
}

#[test]
fn evidence_records_plan_validation_and_outcome() {
    let reg = registry();
    let plan = build_orchestrated_plan(
        &reg,
        &[],
        &default_playbooks(),
        "robot-1",
        "lidar sensor failed",
        FailureClassification::SensorFailure,
        "no points",
    )
    .unwrap();
    let validation = validate_recovery(
        &vec![ActionCheck { hardware_passed: true, capability_passed: true, safety_passed: false, approved: true }],
        true,
        &Vec::new(),
        None,
        &Vec::new(),
        false,
    );
    let e = generate_evidence(&plan, &validation, None, 10, "2026-01-01T00:00:00Z", 1_700_000_000_123);
    assert_eq!(e.evidence_id, "rcv-1700000000123");
    assert_eq!(e.root_cause, "lidar sensor failed");
    assert_eq!(e.strategy, plan.strategies[0]);
    assert_eq!(
        e.entities_involved,
        vec!["fleet-1".to_string(), "lidar-1".to_string(), "robot-1".to_string()]
    );
    assert_eq!(e.safety_validation, "FAIL");
    assert_eq!(e.readiness_result, "PASS");
    assert_eq!(e.trust_result, "PASS");
    assert_eq!(e.status, RecoveryOutcomeStatus::Failed);
    assert_eq!(
        e.mission_impact,
        format!("disruption_score={} upstream=1 downstream=1", plan.decision.mission_disruption_score)
    );
    assert_eq!(e.timeline.len(), 5);
    assert_eq!(e.automatic_decisions.len(), plan.decision.explanations.len() + usize::from(plan.decision.automatic));
    let recorded = generate_evidence(&plan, &validation, Some(RecoveryOutcomeStatus::Success), 0, "", -42);
    assert_eq!(recorded.status, RecoveryOutcomeStatus::Success);
    assert_eq!(recorded.evidence_id, "rcv--42");
}

#[test]
fn simulation_plan_is_named_after_entity_and_failure() {
    let reg = registry();
    let graph = build_recovery_graph(&reg, Some("robot-1"));
    let playbooks = default_playbooks();
    let plan = simulation_plan(
        &reg,
        &[],
        &playbooks,
        None,
        None,
        &graph,
        "robot-1",
        "lidar sensor failed",
        FailureClassification::SensorFailure,
        "no points",
        2,
        "low",
    )
    .unwrap();
    assert_eq!(plan.plan_id, "plan-robot-1-lidar_sensor_failed");
    assert_eq!(plan.estimated_duration_secs, 60);
    assert_eq!(plan.risk, "low");
    assert_eq!(plan.playbook.as_deref(), Some("sensor_failure"));
    assert_eq!(plan.upstream_impact, vec!["lidar-1".to_string()]);
    let requested = simulation_plan(
        &reg,
        &[],
        &playbooks,
        Some("battery_low"),
        None,
        &graph,
        "robot-1",
        "lidar sensor failed",
        FailureClassification::SensorFailure,
        "",
        0,
        "",
    )
    .unwrap();
    assert_eq!(requested.playbook.as_deref(), Some("battery_low"));
    assert!(simulation_plan(&reg, &[], &playbooks, None, None, &graph, "ghost", "x", FailureClassification::Unknown, "", 0, "")
        .is_none());
}

#[test]
fn history_store_returns_newest_first() {
    let reg = registry();
    let plan = build_orchestrated_plan(
        &reg,
        &[],
        &default_playbooks(),
        "robot-1",
        "lidar sensor failed",
        FailureClassification::SensorFailure,
        "no points",
    )
    .unwrap();
    let validation = validate_recovery(&Vec::new(), true, &Vec::new(), None, &Vec::new(), false);
    let mut store = RecoveryHistoryStore::default();
    for millis in [1, 2, 3] {
        store.record(generate_evidence(&plan, &validation, None, 5, "t", millis));
    }
    let ids: Vec<String> = store.recent(2).iter().map(|e| e.evidence_id.clone()).collect();
    assert_eq!(ids, vec!["rcv-3".to_string(), "rcv-2".to_string()]);
    assert_eq!(store.recent(10).len(), 3);
    assert!(store.recent(0).is_empty());
}
