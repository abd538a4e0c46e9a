//! Recovery configuration: policies and playbooks read from the recovery
//! section, and the readiness models.

use spanda_platform::readiness::models::{
    default_health_faults, extract_escalations, extract_fallback_actions, forecast_history_path,
    human_teaming_report, mission_models, ApprovalVerifyReport, PolicyBranch, PolicyBranches,
    ReadinessForecastOptions, RuntimeReadinessContext,
};
use spanda_platform::readiness::severity::ReadinessSeverity;
use spanda_platform::recovery::config::{
    configured_playbooks, load_playbooks_from, load_recovery_policies, parse_playbook_step,
    parse_playbook_value, parse_policy_table, string_array, ConfigValue,
};
use spanda_platform::recovery::entity::{
    EntityHealthStatus, EntityKind, EntityReadinessStatus, EntityRecord, EntityRegistry, EntityTrustStatus,
};
use spanda_platform::recovery::types::{OrchestratorStrategy, RecoveryEscalationLevel};

fn s(x: &str) -> ConfigValue {
    ConfigValue::Str(x.to_string())
}

fn table(entries: Vec<(&str, ConfigValue)>) -> ConfigValue {
    ConfigValue::Table(entries.into_iter().map(|(k, v)| (k.to_string(), v)).collect())
}

fn entries(entries: Vec<(&str, ConfigValue)>) -> Vec<(String, ConfigValue)> {
    entries.into_iter().map(|(k, v)| (k.to_string(), v)).collect()
}

fn record(id: &str, kind: EntityKind) -> EntityRecord {
    EntityRecord {
        id: id.to_string(),
        entity_type: kind,
        health_status: EntityHealthStatus::Healthy,
        readiness_status: EntityReadinessStatus::Ready,
        trust_status: EntityTrustStatus::Trusted,
        name: None,
        display_name: None,
        parent_id: None,
        children_ids: Vec::new(),
        capabilities: Vec::new(),
        package: None,
        provider: None,
    }
}

#[test]
fn string_arrays_keep_only_strings() {
    let t = entries(vec![("deps", ConfigValue::Array(vec![s("a"), ConfigValue::Int(3), s("b")]))]);
    assert_eq!(string_array(&t, "deps"), vec!["a".to_string(), "b".to_string()]);
    assert!(string_array(&t, "missing").is_empty());
}

#[test]
fn policy_table_reads_settings_with_defaults() {
    let value = table(vec![
        ("entity_kind", s("robot")),
        ("priority", ConfigValue::Int(7)),
        ("max_escalation_level", ConfigValue::Int(2)),
        ("requires_approval", ConfigValue::Bool(true)),
        ("safety_constraints", ConfigValue::Array(vec![s("no_shutdown")])),
        (
            "escalation_rules",
            ConfigValue::Array(vec![
                table(vec![
                    ("from_level", ConfigValue::Int(0)),
                    ("to_level", ConfigValue::Int(1)),
                    ("strategy", s("Restart_Component")),
                ]),
                table(vec![("from_level", ConfigValue::Int(0)), ("to_level", ConfigValue::Int(12))]),
                table(vec![
                    ("from_level", ConfigValue::Int(1)),
                    ("to_level", ConfigValue::Int(3)),
                    ("after_retries", ConfigValue::Int(4)),
                ]),
            ]),
        ),
    ]);
    let p = parse_policy_table("robot-1", &value).unwrap();
    assert_eq!(p.entity_id, "robot-1");
    assert_eq!(p.entity_kind, Some(EntityKind::Robot));
    assert_eq!(p.priority, 7);
    assert_eq!(p.timeout_secs, 300);
    assert_eq!(p.retry_limit, 3);
    assert_eq!(p.max_escalation_level, RecoveryEscalationLevel::Level2RestartPackage);
    assert!(p.requires_approval);
    assert_eq!(p.safety_constraints, vec!["no_shutdown".to_string()]);
    assert!(p.validation_rules.is_empty());
    assert_eq!(p.escalation_rules.len(), 2);
    assert_eq!(p.escalation_rules[0].strategy, OrchestratorStrategy::RestartComponent);
    assert_eq!(p.escalation_rules[0].after_retries, 1);
    assert_eq!(p.escalation_rules[1].strategy, OrchestratorStrategy::Retry);
    assert_eq!(p.escalation_rules[1].after_retries, 4);
    assert_eq!(p.escalation_rules[1].to_level, RecoveryEscalationLevel::Level3RecoverDevice);
    assert!(parse_policy_table("x", &s("not a table")).is_none());
    let renamed = parse_policy_table("x", &table(vec![("entity_id", s("gps-1")), ("entity_kind", s("spaceship"))])).unwrap();
    assert_eq!(renamed.entity_id, "gps-1");
    assert_eq!(renamed.entity_kind, None);
}

#[test]
fn policies_merge_configured_defaults_and_platform() {
    let registry = EntityRegistry {
        entities: vec![
            record("robot-2", EntityKind::Robot),
            record("robot-1", EntityKind::Robot),
            record("hazard-1", EntityKind::Hazard),
            record("gps-1", EntityKind::Gps),
        ],
        relationships: Vec::new(),
    };
    let section = entries(vec![
        (
            "policies",
            table(vec![
                ("a", table(vec![("entity_id", s("robot-1")), ("priority", ConfigValue::Int(1))])),
                ("b", table(vec![("entity_id", s("robot-1")), ("priority", ConfigValue::Int(2))])),
                ("zeta", table(vec![("retry_limit", ConfigValue::Int(9))])),
            ]),
        ),
        ("default", table(vec![("timeout_secs", ConfigValue::Int(60))])),
    ]);
    let policies = load_recovery_policies(Some(&section), &registry);
    let ids: Vec<&str> = policies.iter().map(|p| p.entity_id.as_str()).collect();
    assert_eq!(ids, vec!["gps-1", "robot-1", "robot-2", "zeta"]);
    assert_eq!(policies[1].priority, 2);
    assert_eq!(policies[0].timeout_secs, 60);
    assert_eq!(policies[0].entity_kind, Some(EntityKind::Gps));
    assert_eq!(policies[2].timeout_secs, 60);
    assert_eq!(policies[3].retry_limit, 9);
    let plain = load_recovery_policies(None, &registry);
    let ids: Vec<&str> = plain.iter().map(|p| p.entity_id.as_str()).collect();
    assert_eq!(ids, vec!["gps-1", "robot-1", "robot-2"]);
    assert_eq!(plain[1].timeout_secs, 300);
    assert_eq!(plain[1].validation_rules, vec!["health".to_string(), "readiness".to_string(), "trust".to_string()]);
}

#[test]
fn playbook_steps_take_position_and_strategy_defaults() {
    let step = parse_playbook_step(&entries(vec![("strategy", s("reconnect"))]), 4);
    assert_eq!(step.order, 4);
    assert_eq!(step.description, "recovery step");
    assert_eq!(step.strategy, OrchestratorStrategy::Reconnect);
    assert_eq!(step.escalation_level, RecoveryEscalationLevel::Level3RecoverDevice);
    assert_eq!(step.timeout_secs, 30);
    assert!(step.requires_validation);
    let pb = parse_playbook_value(&table(vec![
        ("name", s("battery_low")),
        ("trigger", s("battery")),
        ("entity_kinds", ConfigValue::Array(vec![s("robot"), s("warp_drive"), s("drone")])),
        (
            "steps",
            ConfigValue::Array(vec![
                table(vec![("description", s("dock"))]),
                s("ignored"),
                table(vec![("order", ConfigValue::Int(9)), ("escalation_level", ConfigValue::Int(5))]),
            ]),
        ),
    ]))
    .unwrap();
    assert_eq!(pb.version, "1.0.0");
    assert_eq!(pb.description, "");
    assert_eq!(pb.entity_kinds, vec![EntityKind::Robot, EntityKind::Drone]);
    assert_eq!(pb.steps.len(), 2);
    assert_eq!(pb.steps[0].order, 1);
    assert_eq!(pb.steps[0].description, "dock");
    assert_eq!(pb.steps[1].order, 9);
    assert_eq!(pb.steps[1].escalation_level, RecoveryEscalationLevel::Level5MissionReassign);
    assert!(parse_playbook_value(&table(vec![("trigger", s("x"))])).is_none());
}

#[test]
fn configured_playbooks_replace_defaults_by_name() {
    let section = entries(vec![(
        "playbooks",
        ConfigValue::Array(vec![
            table(vec![("name", s("battery_low")), ("version", s("2.0.0"))]),
            table(vec![("name", s("aaa_custom"))]),
            ConfigValue::Int(1),
        ]),
    )]);
    assert_eq!(configured_playbooks(Some(&section)).len(), 2);
    let all = load_playbooks_from(Some(&section));
    assert_eq!(all[0].name, "aaa_custom");
    let battery = all.iter().find(|p| p.name == "battery_low").unwrap();
    assert_eq!(battery.version, "2.0.0");
    assert!(battery.steps.is_empty());
    let defaults = load_playbooks_from(None);
    assert!(defaults.iter().any(|p| p.name == "battery_low" && p.version == "1.0.0"));
}

#[test]
fn forecast_options_and_history_path() {
    let o = ReadinessForecastOptions::default();
    assert_eq!(o.horizons_days, vec![7, 14, 30]);
    assert_eq!(o.minimum_score, 80);
    assert_eq!(forecast_history_path(Some("/tmp/h.json"), "/home/x/.spanda/h.json"), "/tmp/h.json");
    assert_eq!(forecast_history_path(None, "/home/x/.spanda/h.json"), "/home/x/.spanda/h.json");
}

#[test]
fn mission_models_count_missions_steps_and_severe_issues() {
    let (state, risk) = mission_models(
        &vec![("r1".to_string(), true), ("r2".to_string(), false), ("r3".to_string(), true)],
        &vec![3, 4],
        &vec![true, false],
        &vec![ReadinessSeverity::Critical, ReadinessSeverity::Low, ReadinessSeverity::High],
        72,
        false,
    );
    assert_eq!(state.mission_count, 2);
    assert_eq!(state.missions, vec!["r1".to_string(), "r3".to_string()]);
    assert_eq!(state.robots.len(), 3);
    assert_eq!(state.mission_plan_steps, 7);
    assert!(!state.verification_passed);
    assert_eq!(risk.open_issues, 3);
    assert_eq!(risk.critical_issues, 2);
    assert_eq!(risk.readiness_score, 72);
    assert!(!risk.mission_ready);
}

#[test]
fn teaming_escalations_and_fallbacks() {
    let branch = |c: &str, acts: &[&str]| PolicyBranch {
        condition: c.to_string(),
        actions: acts.iter().map(|a| a.to_string()).collect(),
    };
    let recovery = vec![PolicyBranches {
        name: "gps".to_string(),
        branches: vec![branch("gps_lost", &["enter safe mode", "notify"]), branch("drift", &["recalibrate"])],
    }];
    let continuity = vec![PolicyBranches { name: "link".to_string(), branches: vec![branch("offline", &["hold"])] }];
    let escalations = extract_escalations(&recovery, &continuity);
    let rows: Vec<(String, String, usize)> =
        escalations.iter().map(|e| (e.policy.clone(), e.trigger.clone(), e.actions.len())).collect();
    assert_eq!(
        rows,
        vec![
            ("gps".to_string(), "gps_lost".to_string(), 2),
            ("gps".to_string(), "drift".to_string(), 1),
            ("link".to_string(), "offline".to_string(), 1),
        ]
    );
    let fallbacks = extract_fallback_actions(
        &vec![("degraded".to_string(), 3)],
        &recovery[0].branches,
    );
    assert_eq!(
        fallbacks,
        vec!["health:degraded -> 3 statements".to_string(), "recovery:gps_lost -> enter safe mode".to_string()]
    );
    let report = human_teaming_report(
        "rover.sd",
        ApprovalVerifyReport { rows: Vec::new(), compatible: false },
        escalations,
        fallbacks,
    );
    assert!(!report.passed);
    assert_eq!(report.program, "rover.sd");
}

#[test]
fn runtime_context_defaults() {
    let ctx = RuntimeReadinessContext::default();
    assert!(ctx.faults.is_empty() && ctx.events.is_empty());
    assert_eq!(default_health_faults(), vec!["GPSDegraded", "CameraOffline", "RobotHealthCritical"]);
}
