//! Early failure indicators from telemetry and entity health.

use spanda_platform::recovery::entity::{
    EntityHealthStatus, EntityKind, EntityReadinessStatus, EntityRecord, EntityRegistry, EntityTrustStatus,
};
use spanda_platform::recovery::predictive::{
    extract_entity_id, metric_confidence, scan_predictive_indicators, should_trigger_preventative, NumberBand,
    PredictiveIndicator, TelemetryValue,
};
use spanda_platform::recovery::types::OrchestratorStrategy;

fn record(id: &str, health: EntityHealthStatus) -> EntityRecord {
    EntityRecord {
        id: id.to_string(),
        entity_type: EntityKind::Robot,
        health_status: health,
        readiness_status: EntityReadinessStatus::Ready,
        trust_status: EntityTrustStatus::Trusted,
        name: None,
        display_name: None,
        parent_id: None,
        children_ids: Vec::new(),
        capabilities: Vec::new(),
        package: None,
        provider: None,
    }
}

fn object(entries: Vec<(&str, TelemetryValue)>) -> TelemetryValue {
    TelemetryValue::Object(entries.into_iter().map(|(k, v)| (k.to_string(), v)).collect())
}

#[test]
fn confidence_follows_reading() {
    assert_eq!(metric_confidence(&TelemetryValue::Number(NumberBand::Above90)), 90);
    assert_eq!(metric_confidence(&TelemetryValue::Number(NumberBand::Above70)), 75);
    assert_eq!(metric_confidence(&TelemetryValue::Number(NumberBand::AtMost70)), 60);
    assert_eq!(metric_confidence(&TelemetryValue::Bool(true)), 80);
    assert_eq!(metric_confidence(&TelemetryValue::Bool(false)), 30);
    assert_eq!(metric_confidence(&TelemetryValue::Text("Sensor FAILED".to_string())), 85);
    assert_eq!(metric_confidence(&TelemetryValue::Text("degraded".to_string())), 70);
    assert_eq!(metric_confidence(&TelemetryValue::Text("nominal".to_string())), 50);
    assert_eq!(metric_confidence(&TelemetryValue::Other), 50);
}

#[test]
fn entity_id_is_first_entity_segment() {
    assert_eq!(extract_entity_id("fleet.robot-7.memory_leak"), "fleet");
    assert_eq!(extract_entity_id("site.robot-7.cpu_spike"), "robot-7");
    assert_eq!(extract_entity_id("site.cpu_spike"), "unknown");
    assert_eq!(extract_entity_id(""), "unknown");
}

#[test]
fn telemetry_and_health_indicators_come_out_strongest_first() {
    let telemetry = object(vec![(
        "robot-1",
        object(vec![
            ("memory_leak", TelemetryValue::Number(NumberBand::Above70)),
            ("temperature_increase", TelemetryValue::Number(NumberBand::Above90)),
            ("packet_loss", TelemetryValue::Bool(false)),
        ]),
    )]);
    let registry = EntityRegistry {
        entities: vec![
            record("robot-2", EntityHealthStatus::Degraded),
            record("robot-3", EntityHealthStatus::Critical),
            record("robot-4", EntityHealthStatus::Healthy),
        ],
        relationships: Vec::new(),
    };
    let found = scan_predictive_indicators(&registry, Some(&telemetry));
    let summary: Vec<(String, String, u32, bool)> = found
        .iter()
        .map(|i| (i.indicator.clone(), i.entity_id.clone(), i.confidence_pct, i.preventative))
        .collect();
    assert_eq!(
        summary,
        vec![
            ("temperature_increase".to_string(), "robot-1".to_string(), 90, false),
            ("health_critical".to_string(), "robot-3".to_string(), 90, false),
            ("memory_leak".to_string(), "robot-1".to_string(), 75, true),
            ("health_degradation".to_string(), "robot-2".to_string(), 70, true),
        ]
    );
    assert_eq!(found[0].severity, "critical");
    assert_eq!(found[0].recommended_action, OrchestratorStrategy::SafeShutdown);
    assert_eq!(found[2].recommended_action, OrchestratorStrategy::RestartComponent);
    assert!(should_trigger_preventative(&found));
}

#[test]
fn weak_indicators_do_not_trigger_prevention() {
    let registry = EntityRegistry {
        entities: vec![record("robot-2", EntityHealthStatus::Warning)],
        relationships: Vec::new(),
    };
    let found = scan_predictive_indicators(&registry, None);
    assert_eq!(found.len(), 1);
    assert_eq!(found[0].confidence_pct, 70);
    assert!(!should_trigger_preventative(&found));
    let strong = PredictiveIndicator { confidence_pct: 80, ..found[0].clone() };
    assert!(should_trigger_preventative(&[strong]));
}
