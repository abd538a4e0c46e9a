//! Text reports of decisions, playbooks and plans, and the legacy strategy
//! mapping.

use spanda_platform::recovery::decision::RecoveryDecision;
use spanda_platform::recovery::entity::EntityKind;
use spanda_platform::recovery::orchestration::OrchestratedRecoveryPlan;
use spanda_platform::recovery::playbook::{PlaybookStep, RecoveryPlaybook};
use spanda_platform::recovery::graph::{RecoveryGraph, RecoveryGraphEdge, RecoveryGraphNode};
use spanda_platform::recovery::report_text::{
    format_decision_text, format_plan_text, format_playbooks_text, format_recovery_graph_text,
};
use spanda_platform::recovery::types::{
    FailureClassification, LegacyRecoveryStrategy, OrchestratorStrategy, RecoveryEscalationLevel,
};

fn decision(backup: Option<&str>) -> RecoveryDecision {
    RecoveryDecision {
        can_recover: true,
        should_recover: true,
        is_safe: false,
        is_authorized: true,
        automatic: false,
        recommended_strategy: OrchestratorStrategy::SwitchSensor,
        recommended_level: RecoveryEscalationLevel::Level3RecoverDevice,
        lowest_risk_strategy: OrchestratorStrategy::Retry,
        mission_disruption_score: 25,
        estimated_downtime_secs: 90,
        backup_entity_id: backup.map(|b| b.to_string()),
        explanations: vec!["sensor failed".to_string(), "backup available".to_string()],
    }
}

#[test]
fn decision_text_lists_flags_and_explanations() {
    let text = format_decision_text(&decision(Some("lidar-2")));
    let expected = "Recovery Decision\n=================\n\n\
Can recover: true\n\
Should recover: true\n\
Is safe: false\n\
Is authorized: true\n\
Automatic: false\n\
Recommended: switch_sensor (level Level3RecoverDevice)\n\
Lowest risk: retry\n\
Mission disruption: 25\n\
Estimated downtime: 90s\n\
Backup entity: lidar-2\n\
\nExplanations:\n  - sensor failed\n  - backup available\n";
    assert_eq!(text, expected);
}

#[test]
fn decision_text_without_backup_has_no_backup_line() {
    let text = format_decision_text(&decision(None));
    assert!(!text.contains("Backup entity"));
    assert!(text.contains("Estimated downtime: 90s\n\nExplanations:"));
}

#[test]
fn playbooks_text_lists_each_step() {
    let pb = RecoveryPlaybook {
        name: "sensor_failure".to_string(),
        version: "1.0".to_string(),
        description: "Recover a failed sensor".to_string(),
        trigger: "sensor_failure".to_string(),
        steps: vec![
            PlaybookStep {
                order: 1,
                description: "Retry read".to_string(),
                strategy: OrchestratorStrategy::Retry,
                escalation_level: RecoveryEscalationLevel::Level0Retry,
                timeout_secs: 5,
                requires_validation: false,
            },
            PlaybookStep {
                order: 2,
                description: "Switch sensor".to_string(),
                strategy: OrchestratorStrategy::SwitchSensor,
                escalation_level: RecoveryEscalationLevel::Level3RecoverDevice,
                timeout_secs: 30,
                requires_validation: true,
            },
        ],
        entity_kinds: vec![EntityKind::Sensor],
    };
    let text = format_playbooks_text(&[pb]);
    let expected = [
        "Recovery Playbooks\n==================\n\n",
        "sensor_failure (v1.0)\n",
        "  Trigger: sensor_failure\n",
        "  Recover a failed sensor\n",
        "  Steps: 2\n",
        "    1. Retry read [retry]\n",
        "    2. Switch sensor [switch_sensor]\n\n",
    ]
    .concat();
    assert_eq!(text, expected);
    assert_eq!(format_playbooks_text(&[]), "Recovery Playbooks\n==================\n\n");
}

#[test]
fn plan_text_names_entity_failure_and_strategies() {
    let plan = OrchestratedRecoveryPlan {
        plan_id: "plan-robot-1".to_string(),
        entity_id: "robot-1".to_string(),
        entity_kind: EntityKind::Robot,
        failure: "lidar failed".to_string(),
        classification: FailureClassification::SensorFailure,
        diagnosis: String::new(),
        strategies: vec![OrchestratorStrategy::Retry, OrchestratorStrategy::Custom("recalibrate".to_string())],
        escalation_level: RecoveryEscalationLevel::Level3RecoverDevice,
        decision: decision(None),
        playbook: Some("sensor_failure".to_string()),
        upstream_impact: Vec::new(),
        downstream_impact: Vec::new(),
        estimated_duration_secs: 60,
        risk: "medium".to_string(),
    };
    let expected = [
        "\n  Plan: plan-robot-1\n",
        "  Entity: robot-1 (Robot)\n",
        "  Failure: lidar failed\n",
        "  Risk: medium\n",
        "  Playbook: sensor_failure\n",
        "  Strategies:\n    - retry\n    - recalibrate\n",
    ]
    .concat();
    assert_eq!(format_plan_text(&plan), expected);
}

#[test]
fn strategies_map_to_legacy_engine() {
    assert_eq!(OrchestratorStrategy::Reconnect.to_legacy(), LegacyRecoveryStrategy::ConnectivityRestart);
    assert_eq!(OrchestratorStrategy::SwitchProvider.to_legacy(), LegacyRecoveryStrategy::ProviderReconnect);
    assert_eq!(OrchestratorStrategy::ReloadConfiguration.to_legacy(), LegacyRecoveryStrategy::PackageReload);
    assert_eq!(OrchestratorStrategy::SwitchSensor.to_legacy(), LegacyRecoveryStrategy::DeviceReinitialize);
    assert_eq!(OrchestratorStrategy::SwitchHardware.to_legacy(), LegacyRecoveryStrategy::RedundantHardwareSwitch);
    assert_eq!(OrchestratorStrategy::SafeShutdown.to_legacy(), LegacyRecoveryStrategy::DegradedMode);
    assert_eq!(OrchestratorStrategy::DelegateMission.to_legacy(), LegacyRecoveryStrategy::MissionPause);
    assert_eq!(OrchestratorStrategy::SwitchFleet.to_legacy(), LegacyRecoveryStrategy::FleetReassign);
    assert_eq!(OrchestratorStrategy::HumanEscalation.to_legacy(), LegacyRecoveryStrategy::OperatorAlert);
    assert_eq!(
        OrchestratorStrategy::RestartRobot.to_legacy(),
        LegacyRecoveryStrategy::Custom("restart_robot".to_string())
    );
    assert_eq!(OrchestratorStrategy::Retry.to_legacy(), LegacyRecoveryStrategy::Custom("retry".to_string()));
    assert_eq!(
        OrchestratorStrategy::Custom("warm_boot".to_string()).to_legacy(),
        LegacyRecoveryStrategy::Custom("warm_boot".to_string())
    );
}

#[test]
fn entity_kind_debug_name_reads_back() {
    assert_eq!(EntityKind::Gps.debug_name(), "Gps");
    assert_eq!(EntityKind::parse_name("gps"), Some(EntityKind::Gps));
    assert_eq!(EntityKind::parse_name("nothing"), None);
}

#[test]
fn every_kind_name_parses_back() {
    let kinds = [
        EntityKind::Robot,
        EntityKind::Drone,
        EntityKind::Vehicle,
        EntityKind::Device,
        EntityKind::Sensor,
        EntityKind::Actuator,
        EntityKind::Camera,
        EntityKind::Gps,
        EntityKind::Gateway,
        EntityKind::Controller,
        EntityKind::Compute,
        EntityKind::Fleet,
        EntityKind::Swarm,
        EntityKind::Mission,
        EntityKind::Human,
        EntityKind::Team,
        EntityKind::Facility,
        EntityKind::Building,
        EntityKind::Zone,
        EntityKind::Package,
        EntityKind::Provider,
        EntityKind::Organization,
        EntityKind::Incident,
        EntityKind::Hazard,
    ];
    for k in kinds {
        assert_eq!(EntityKind::parse_name(k.as_str()), Some(k));
    }
}

#[test]
fn graph_text_lists_nodes_and_edges() {
    let edge = |from: &str, to: &str, rel: &str, critical: bool| RecoveryGraphEdge {
        from: from.to_string(),
        to: to.to_string(),
        relationship: rel.to_string(),
        critical,
    };
    let graph = RecoveryGraph {
        nodes: vec![RecoveryGraphNode {
            id: "robot-1".to_string(),
            kind: EntityKind::Robot,
            display_name: "Rover One".to_string(),
            recoverable: true,
            health_status: "Degraded".to_string(),
            depth: 0,
        }],
        dependency_edges: vec![edge("robot-1", "gps-1", "depends_on", true)],
        impact_edges: vec![edge("gps-1", "robot-1", "impacts", true)],
        recovery_edges: Vec::new(),
        root_entity_id: Some("robot-1".to_string()),
    };
    let expected = [
        "Recovery Graph\n==============\n\n",
        "Root: robot-1\n\n",
        "Nodes (1):\n",
        "  [robot-1] Rover One (Robot) depth=0 recoverable=true\n",
        "\nDependency edges (1):\n",
        "  robot-1 --[depends_on]--> gps-1 (critical)\n",
        "\nImpact edges (1):\n",
        "  gps-1 --[impacts]--> robot-1\n",
    ]
    .concat();
    assert_eq!(format_recovery_graph_text(&graph), expected);
}
