//! Recovery learning, simulation runs, post-recovery validation and entity
//! health roll-ups.

use spanda_platform::readiness::entity_health::{
    evaluate_entity_health, DeviceHealth, EntityHealthFacts, HealthCheckResult,
};
use spanda_platform::recovery::entity::{
    EntityHealthStatus, EntityKind, EntityRecord, EntityRegistry, EntityRelationship,
    EntityRelationshipKind, EntityReadinessStatus, EntityTrustStatus,
};
use spanda_platform::recovery::learning::{
    outcome_counts, repeated_failures, strategy_usage, RecoveryOutcome, RecoveryOutcomeStatus,
};
use spanda_platform::recovery::simulation::{
    RecoverySimulationMode,
    failure_targets, plan_id, simulation_passed, RecoveryOrchestratorRequest,
};
use spanda_platform::recovery::validation::{validate_recovery, ActionCheck};

fn outcome(label: &str, status: RecoveryOutcomeStatus, secs: u64, cause: &str, entities: &[&str]) -> RecoveryOutcome {
    RecoveryOutcome {
        strategy_label: label.to_string(),
        status,
        duration_secs: secs,
        root_cause: cause.to_string(),
        entities_involved: entities.iter().map(|e| e.to_string()).collect(),
    }
}

fn history() -> Vec<RecoveryOutcome> {
    vec![
        outcome("restart", RecoveryOutcomeStatus::Success, 10, "gps_loss", &["robot-1"]),
        outcome("failover", RecoveryOutcomeStatus::Failed, 30, "gps_loss", &["robot-1", "gps-1"]),
        outcome("restart", RecoveryOutcomeStatus::Success, 20, "battery_low", &["robot-2"]),
        outcome("restart", RecoveryOutcomeStatus::Other, 5, "gps_loss", &["robot-1"]),
    ]
}

#[test]
fn outcome_counts_split_by_status() {
    assert_eq!(outcome_counts(&history()), (4, 2, 1));
    assert_eq!(outcome_counts(&Vec::new()), (0, 0, 0));
}

#[test]
fn strategy_usage_in_order_of_first_use() {
    let usage = strategy_usage(&history());
    let rows: Vec<(String, u64, u64, u128)> = usage
        .into_iter()
        .map(|u| (u.strategy, u.usage_count, u.successes, u.total_duration_secs))
        .collect();
    assert_eq!(
        rows,
        vec![("restart".to_string(), 3, 2, 35), ("failover".to_string(), 1, 0, 30)]
    );
}

#[test]
fn strategy_usage_sums_long_durations() {
    let long = |d: u64| RecoveryOutcome {
        strategy_label: "restart".to_string(),
        status: RecoveryOutcomeStatus::Success,
        duration_secs: d,
        root_cause: "crash".to_string(),
        entities_involved: Vec::new(),
    };
    let usage = strategy_usage(&vec![long(u64::MAX), long(u64::MAX)]);
    assert_eq!(usage[0].total_duration_secs, 2 * (u64::MAX as u128));
}

#[test]
fn repeated_failures_need_two_occurrences() {
    let repeated = repeated_failures(&history(), "2026-01-01T00:00:00Z");
    assert_eq!(repeated.len(), 1);
    assert_eq!(repeated[0].failure_pattern, "gps_loss");
    assert_eq!(repeated[0].entity_id, "robot-1");
    assert_eq!(repeated[0].occurrence_count, 3);
    assert_eq!(repeated[0].last_seen, "2026-01-01T00:00:00Z");
}

fn record(id: &str, kind: EntityKind, health: EntityHealthStatus) -> EntityRecord {
    EntityRecord {
        id: id.to_string(),
        entity_type: kind,
        health_status: health,
        name: None,
        display_name: None,
        parent_id: None,
        children_ids: Vec::new(),
        readiness_status: EntityReadinessStatus::Ready,
        trust_status: EntityTrustStatus::Trusted,
        capabilities: Vec::new(),
        package: None,
        provider: None,
    }
}

fn registry() -> EntityRegistry {
    let mut site = record("site-1", EntityKind::Facility, EntityHealthStatus::Healthy);
    site.children_ids = vec!["robot-1".to_string(), "gps-1".to_string(), "ghost".to_string()];
    EntityRegistry {
        entities: vec![
            record("robot-1", EntityKind::Robot, EntityHealthStatus::Degraded),
            record("gps-1", EntityKind::Gps, EntityHealthStatus::Offline),
            record("fleet-1", EntityKind::Fleet, EntityHealthStatus::Healthy),
            record("op-1", EntityKind::Human, EntityHealthStatus::Healthy),
            site,
            record("robot-2", EntityKind::Robot, EntityHealthStatus::Healthy),
            record("robot-3", EntityKind::Robot, EntityHealthStatus::Healthy),
            record("robot-4", EntityKind::Robot, EntityHealthStatus::Healthy),
        ],
        relationships: vec![
            EntityRelationship {
                from_id: "robot-1".to_string(),
                to_id: "gps-1".to_string(),
                kind: EntityRelationshipKind::Contains,
            },
            EntityRelationship {
                from_id: "fleet-1".to_string(),
                to_id: "robot-1".to_string(),
                kind: EntityRelationshipKind::Owns,
            },
        ],
    }
}

fn facts() -> EntityHealthFacts {
    EntityHealthFacts {
        lifecycle_state: "active".to_string(),
        devices: vec![DeviceHealth {
            id: "gps-1".to_string(),
            readiness_blocked: true,
            blockers: vec!["no fix".to_string(), "calibration expired".to_string()],
            firmware_supported: false,
            calibration_expired: true,
            quarantined: false,
            quarantine_reasons: Vec::new(),
        }],
        robot_compute_devices: Vec::new(),
        humans: vec![("op-1".to_string(), Some("fatigued".to_string()))],
        health_checks: None,
    }
}

fn diag_rows(report: &spanda_platform::readiness::entity_health::EntityHealthReport) -> Vec<(String, String, String)> {
    report
        .diagnostics
        .iter()
        .map(|d| (d.category.clone(), d.severity.clone(), d.message.clone()))
        .collect()
}

fn row(c: &str, s: &str, m: &str) -> (String, String, String) {
    (c.to_string(), s.to_string(), m.to_string())
}

#[test]
fn robot_health_reads_its_devices() {
    let report = evaluate_entity_health("robot-1", &registry(), &facts()).unwrap();
    assert_eq!(report.entity_type, "robot");
    assert_eq!(report.health_status, "degraded");
    assert_eq!(report.lifecycle_state, "active");
    assert_eq!(
        diag_rows(&report),
        vec![
            row("health", "warning", "Entity health is degraded"),
            row("device", "error", "Device 'gps-1' unhealthy: no fix, calibration expired"),
        ]
    );
    assert_eq!(report.metrics.total_devices, 1);
    assert_eq!(report.metrics.blocked_devices, 1);
    assert_eq!(report.children_checked, 1);
    assert_eq!(report.sources, vec!["entity_snapshot".to_string(), "device_pool".to_string()]);
}

#[test]
fn device_health_reports_firmware_and_calibration() {
    let report = evaluate_entity_health("gps-1", &registry(), &facts()).unwrap();
    assert_eq!(
        diag_rows(&report),
        vec![
            row("health", "critical", "Entity health is offline"),
            row("device", "error", "Device unhealthy: no fix, calibration expired"),
            row("firmware", "warning", "Firmware unsupported"),
            row("calibration", "warning", "Calibration expired"),
        ]
    );
    assert_eq!(report.children_checked, 0);
}

#[test]
fn fleet_rolls_up_members_and_their_devices() {
    let report = evaluate_entity_health("fleet-1", &registry(), &facts()).unwrap();
    assert_eq!(
        diag_rows(&report),
        vec![
            row("fleet_member", "warning", "Member 'robot-1' health is degraded"),
            row("device", "error", "Device 'gps-1' unhealthy: no fix, calibration expired"),
        ]
    );
    assert_eq!(report.children_checked, 2);
    assert_eq!(report.metrics.blocked_devices, 1);
    assert_eq!(report.sources, vec!["entity_snapshot".to_string()]);
}

#[test]
fn facility_and_human_health() {
    let site = evaluate_entity_health("site-1", &registry(), &facts()).unwrap();
    assert_eq!(
        diag_rows(&site),
        vec![
            row("child", "warning", "Child 'robot-1' health is degraded"),
            row("child", "warning", "Child 'gps-1' health is offline"),
        ]
    );
    assert_eq!(site.children_checked, 3);
    let op = evaluate_entity_health("op-1", &registry(), &facts()).unwrap();
    assert_eq!(diag_rows(&op), vec![row("human", "warning", "Operator health status is fatigued")]);
    assert!(evaluate_entity_health("missing-entity", &registry(), &facts()).is_none());
}

#[test]
fn declared_health_checks_count_and_warn() {
    let mut f = facts();
    f.health_checks = Some((
        vec![
            HealthCheckResult { name: "gps_fix".to_string(), target: "gps-1".to_string(), healthy: false },
            HealthCheckResult { name: "battery".to_string(), target: "robot-2".to_string(), healthy: true },
        ],
        true,
    ));
    let report = evaluate_entity_health("robot-2", &registry(), &f).unwrap();
    assert_eq!(report.metrics.health_checks_passed, 1);
    assert_eq!(report.metrics.health_checks_failed, 1);
    assert_eq!(
        diag_rows(&report),
        vec![
            row("health_check", "warning", "Health check 'gps_fix' failed for gps-1"),
            row("runtime", "warning", "Runtime health evaluation reports degraded posture"),
        ]
    );
    assert_eq!(
        report.sources,
        vec!["entity_snapshot".to_string(), "device_pool".to_string(), "health_checks".to_string()]
    );
}

#[test]
fn failure_targets_follow_the_request() {
    let reg = registry();
    let mut req = RecoveryOrchestratorRequest::default();
    req.failure = Some("gps_loss".to_string());
    assert_eq!(failure_targets(&req, &reg), vec![("system".to_string(), "gps_loss".to_string())]);
    req.entity_id = Some("robot-1".to_string());
    assert_eq!(failure_targets(&req, &reg), vec![("robot-1".to_string(), "gps_loss".to_string())]);
    req.failure = None;
    assert_eq!(failure_targets(&req, &reg), vec![("robot-1".to_string(), "robot-1_degraded".to_string())]);
    let all = failure_targets(&RecoveryOrchestratorRequest::default(), &reg);
    assert_eq!(all.len(), 5);
    assert_eq!(all[4], ("site-1".to_string(), "site-1_health_check".to_string()));
}

#[test]
fn plan_ids_replace_spaces() {
    assert_eq!(plan_id("robot-1", "lidar sensor failed"), "plan-robot-1-lidar_sensor_failed");
    assert_eq!(plan_id("", ""), "plan--");
}

#[test]
fn simulation_passes_only_when_every_plan_is_safe() {
    assert!(simulation_passed(&vec![(true, true)], &vec![RecoveryOutcomeStatus::Success]));
    assert!(!simulation_passed(&vec![(true, false)], &Vec::new()));
    assert!(!simulation_passed(&vec![(true, true)], &vec![RecoveryOutcomeStatus::Failed]));
    assert!(simulation_passed(&Vec::new(), &vec![RecoveryOutcomeStatus::Other]));
}

fn check(hw: bool, cap: bool, safe: bool, approved: bool) -> ActionCheck {
    ActionCheck { hardware_passed: hw, capability_passed: cap, safety_passed: safe, approved }
}

#[test]
fn recovery_validation_passes_with_clean_checks() {
    let r = validate_recovery(
        &vec![check(true, true, true, true)],
        true,
        &Vec::new(),
        Some(EntityTrustStatus::Trusted),
        &Vec::new(),
        false,
    );
    assert!(r.passed);
    assert_eq!(r.messages, vec!["All validation gates passed".to_string()]);
}

#[test]
fn recovery_validation_reports_each_failed_gate() {
    let r = validate_recovery(
        &vec![check(false, false, false, false)],
        false,
        &vec!["battery low".to_string(), "gps lost".to_string()],
        Some(EntityTrustStatus::Compromised),
        &vec!["health".to_string()],
        true,
    );
    assert!(!r.passed);
    assert!(!r.trust_verification && !r.mission_validation && !r.security_verification);
    assert_eq!(
        r.messages,
        vec![
            "Health verification failed".to_string(),
            "Capability verification failed".to_string(),
            "Hardware verification failed".to_string(),
            "Readiness verification failed: battery low, gps lost".to_string(),
            "Trust verification failed — entity untrusted".to_string(),
            "Security/safety validation failed".to_string(),
            "Mission validation requires approval".to_string(),
        ]
    );
}

#[test]
fn only_planning_skips_evidence() {
    assert!(!RecoverySimulationMode::Plan.records_evidence());
    assert!(RecoverySimulationMode::Simulate.records_evidence());
    assert!(RecoverySimulationMode::DryRun.records_evidence());
    assert!(RecoverySimulationMode::Validate.records_evidence());
}
