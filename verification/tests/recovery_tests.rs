//! Recovery orchestration tests: decisions, policies, playbooks, plugins and
//! impact analysis.

use spanda_platform::recovery::decision::{decide_recovery, disruption_score, estimated_downtime};
use spanda_platform::recovery::entity::{
    EntityHealthStatus, EntityKind, EntityRecord, EntityRegistry, EntityRelationship,
    EntityRelationshipKind, EntityReadinessStatus, EntityTrustStatus,
};
use spanda_platform::recovery::graph::{
    analyze_impact, build_recovery_graph, list_recoverable_entities, RecoveryGraph, RecoveryGraphEdge,
};
use spanda_platform::recovery::playbook::{
    default_playbooks, find_playbook, load_playbooks, match_playbooks, merge_plugin_playbooks,
    sort_playbooks_by_name, RecoveryPlaybook,
};
use spanda_platform::recovery::plugin::{PluginRecoveryExtension, RecoveryPluginRegistry};
use spanda_platform::recovery::policy::{evaluate_policy, EntityRecoveryPolicy};
use spanda_platform::recovery::types::{
    parse_strategy, parse_strategy_for_playbook, FailureClassification, OrchestratorStrategy, RecoveryEscalationLevel,
};

fn entity(id: &str, kind: EntityKind, health: EntityHealthStatus, parent: Option<&str>) -> EntityRecord {
    EntityRecord {
        id: id.to_string(),
        entity_type: kind,
        health_status: health,
        name: None,
        display_name: None,
        parent_id: parent.map(String::from),
        children_ids: Vec::new(),
        readiness_status: EntityReadinessStatus::Ready,
        trust_status: EntityTrustStatus::Trusted,
        capabilities: Vec::new(),
        package: None,
        provider: None,
    }
}

fn sample_registry() -> EntityRegistry {
    EntityRegistry {
        entities: vec![
            entity("robot-1", EntityKind::Robot, EntityHealthStatus::Degraded, None),
            entity("camera-1", EntityKind::Camera, EntityHealthStatus::Warning, Some("robot-1")),
        ],
        relationships: Vec::new(),
    }
}

fn ext(kind: &str, name: &str, description: &str) -> PluginRecoveryExtension {
    PluginRecoveryExtension {
        plugin_id: "test-plugin".to_string(),
        extension_kind: kind.to_string(),
        name: name.to_string(),
        description: description.to_string(),
    }
}

fn edge(from: &str, to: &str) -> RecoveryGraphEdge {
    RecoveryGraphEdge {
        from: from.to_string(),
        to: to.to_string(),
        relationship: "depends_on".to_string(),
        critical: true,
    }
}

#[test]
fn plugin_registry_accepts_extensions() {
    let mut registry = RecoveryPluginRegistry::new();
    registry.register(ext("strategy", "custom_retry", "Custom retry strategy"));
    assert!(registry.resolve_strategy("custom_retry").is_some());
}

#[test]
fn plugin_registry_lists_by_kind_in_order() {
    let mut registry = RecoveryPluginRegistry::new();
    registry.register(ext("strategy", "a", "x"));
    registry.register(ext("playbook", "b", "y"));
    registry.register(ext("strategy", "c", "z"));
    let names: Vec<String> = registry.list("strategy").into_iter().map(|e| e.name).collect();
    assert_eq!(names, vec!["a".to_string(), "c".to_string()]);
    assert_eq!(registry.all().len(), 3);
    assert!(registry.list("validator").is_empty());
    assert_eq!(
        registry.resolve_strategy("c"),
        Some(OrchestratorStrategy::Custom("c".to_string()))
    );
    assert_eq!(registry.resolve_strategy("b"), None);
}

#[test]
fn policy_evaluation_respects_max_level() {
    let mut policy = EntityRecoveryPolicy::platform_default();
    policy.entity_id = "robot-1".to_string();
    policy.max_escalation_level = RecoveryEscalationLevel::Level2RestartPackage;
    let (ok, _) = evaluate_policy(
        &policy,
        &OrchestratorStrategy::RestartRobot,
        RecoveryEscalationLevel::Level4RecoverRobot,
    );
    assert!(!ok);
}

#[test]
fn decision_engine_explains_recovery() {
    let registry = sample_registry();
    let entity = registry.get("robot-1").unwrap();
    let decision = decide_recovery(entity, "gps_loss", &[], &registry, FailureClassification::SensorFailure);
    assert!(decision.can_recover);
    assert!(!decision.explanations.is_empty());
}

#[test]
fn safety_failure_is_never_automatic() {
    let registry = sample_registry();
    let entity = registry.get("robot-1").unwrap();
    let d = decide_recovery(entity, "estop", &[], &registry, FailureClassification::SafetyFailure);
    assert!(!d.is_safe);
    assert!(!d.automatic);
    assert_eq!(d.recommended_strategy, OrchestratorStrategy::HumanEscalation);
    assert_eq!(d.mission_disruption_score, 90);
    assert_eq!(d.estimated_downtime_secs, 1800);
}

#[test]
fn offline_entity_without_failure_keyword_cannot_recover() {
    let registry = EntityRegistry {
        entities: vec![entity("robot-9", EntityKind::Robot, EntityHealthStatus::Offline, None)],
        relationships: Vec::new(),
    };
    let e = registry.get("robot-9").unwrap();
    let d = decide_recovery(e, "gps_loss", &[], &registry, FailureClassification::Unknown);
    assert!(!d.can_recover);
    assert!(!d.should_recover);
    assert_eq!(d.explanations[0], "Entity is offline with no recoverable state");
    let d2 = decide_recovery(e, "link failed", &[], &registry, FailureClassification::Unknown);
    assert!(d2.can_recover);
    assert_eq!(d2.recommended_strategy, OrchestratorStrategy::RestartRobot);
}

#[test]
fn backup_entity_of_same_kind_is_chosen() {
    let registry = EntityRegistry {
        entities: vec![
            entity("robot-1", EntityKind::Robot, EntityHealthStatus::Degraded, None),
            entity("robot-2", EntityKind::Robot, EntityHealthStatus::Critical, None),
            entity("robot-3", EntityKind::Robot, EntityHealthStatus::Healthy, None),
        ],
        relationships: Vec::new(),
    };
    let e = registry.get("robot-1").unwrap();
    let d = decide_recovery(e, "sensor glitch", &[], &registry, FailureClassification::SensorFailure);
    assert_eq!(d.backup_entity_id, Some("robot-3".to_string()));
    assert!(d.explanations.iter().any(|m| m == "Backup entity 'robot-3' available"));
    assert!(d.explanations.iter().any(|m| m == "Lowest-risk strategy: 'retry' (disruption score 40)"));
}

#[test]
fn disruption_and_downtime_tables() {
    assert_eq!(disruption_score(RecoveryEscalationLevel::Level0Retry), 5);
    assert_eq!(disruption_score(RecoveryEscalationLevel::Level8EmergencyShutdown), 100);
    assert_eq!(estimated_downtime(RecoveryEscalationLevel::Level6FleetRedistribute), 600);
    assert_eq!(estimated_downtime(RecoveryEscalationLevel::Level8EmergencyShutdown), 60);
}

#[test]
fn playbook_matching_finds_sensor_playbook() {
    let playbooks = default_playbooks();
    let matched = match_playbooks(&playbooks, "lidar sensor failed");
    assert!(!matched.is_empty());
    assert_eq!(matched[0].name, "sensor_failure");
}

#[test]
fn playbook_matching_is_case_insensitive_both_ways() {
    let playbooks = default_playbooks();
    let matched = match_playbooks(&playbooks, "FLEET");
    assert_eq!(matched.len(), 1);
    assert_eq!(matched[0].name, "fleet_member_loss");
    let sub = match_playbooks(&playbooks, "miss");
    assert_eq!(sub.len(), 1);
    assert_eq!(sub[0].name, "mission_transfer");
}

#[test]
fn load_playbooks_includes_defaults() {
    let playbooks = load_playbooks(Vec::new());
    assert!(playbooks.iter().any(|p| p.name == "battery_low"));
}

#[test]
fn load_playbooks_sorts_and_overrides_by_name() {
    let custom = RecoveryPlaybook {
        name: "battery_low".to_string(),
        version: "2.0.0".to_string(),
        description: "custom".to_string(),
        trigger: "battery".to_string(),
        steps: Vec::new(),
        entity_kinds: Vec::new(),
    };
    let extra = RecoveryPlaybook { name: "aaa".to_string(), ..custom.clone() };
    let playbooks = load_playbooks(vec![custom, extra]);
    let names: Vec<&str> = playbooks.iter().map(|p| p.name.as_str()).collect();
    assert_eq!(
        names,
        vec!["aaa", "battery_low", "connectivity_loss", "fleet_member_loss", "mission_transfer", "sensor_failure"]
    );
    assert_eq!(find_playbook(&playbooks, "battery_low").unwrap().version, "2.0.0");
    assert!(find_playbook(&playbooks, "nope").is_none());
}

#[test]
fn default_playbooks_have_numbered_steps() {
    let playbooks = default_playbooks();
    assert_eq!(playbooks.len(), 5);
    for p in &playbooks {
        for (i, s) in p.steps.iter().enumerate() {
            assert_eq!(s.order as usize, i + 1);
        }
    }
    assert_eq!(playbooks[0].steps[1].strategy, OrchestratorStrategy::DelegateMission);
}

#[test]
fn plugin_playbooks_are_added_once_and_sorted() {
    let mut registry = RecoveryPluginRegistry::new();
    registry.register(ext("playbook", "zeta", "zeta trigger"));
    registry.register(ext("playbook", "battery_low", "ignored"));
    registry.register(ext("playbook", "zeta", "second"));
    let mut playbooks = default_playbooks();
    merge_plugin_playbooks(&mut playbooks, &registry);
    assert_eq!(playbooks.len(), 6);
    let last = playbooks.last().unwrap();
    assert_eq!(last.name, "zeta");
    assert_eq!(last.version, "plugin");
    assert_eq!(last.trigger, "zeta trigger");
    assert_eq!(last.steps[0].description, "Plugin playbook: zeta");
    assert_eq!(last.steps[0].strategy, OrchestratorStrategy::Custom("zeta".to_string()));
}

#[test]
fn sort_by_name_is_stable() {
    let mk = |name: &str, version: &str| RecoveryPlaybook {
        name: name.to_string(),
        version: version.to_string(),
        description: String::new(),
        trigger: String::new(),
        steps: Vec::new(),
        entity_kinds: Vec::new(),
    };
    let sorted = sort_playbooks_by_name(vec![mk("b", "1"), mk("a", "1"), mk("b", "2"), mk("a", "2")]);
    let pairs: Vec<(String, String)> = sorted.into_iter().map(|p| (p.name, p.version)).collect();
    assert_eq!(
        pairs,
        vec![
            ("a".to_string(), "1".to_string()),
            ("a".to_string(), "2".to_string()),
            ("b".to_string(), "1".to_string()),
            ("b".to_string(), "2".to_string()),
        ]
    );
}

#[test]
fn impact_analysis_follows_dependencies_both_ways() {
    let graph = RecoveryGraph {
        nodes: Vec::new(),
        dependency_edges: vec![edge("camera-1", "robot-1"), edge("robot-1", "fleet-1"), edge("fleet-1", "robot-1")],
        impact_edges: Vec::new(),
        recovery_edges: Vec::new(),
        root_entity_id: None,
    };
    let (up, down) = analyze_impact(&graph, "robot-1");
    assert_eq!(up, vec!["fleet-1".to_string()]);
    assert_eq!(down, vec!["camera-1".to_string(), "fleet-1".to_string()]);
    let (up_cam, down_cam) = analyze_impact(&graph, "camera-1");
    assert_eq!(up_cam, vec!["fleet-1".to_string(), "robot-1".to_string()]);
    assert!(down_cam.is_empty());
    let (up_none, down_none) = analyze_impact(&graph, "ghost");
    assert!(up_none.is_empty() && down_none.is_empty());
}

#[test]
fn dependency_graph_includes_entities() {
    let registry = sample_registry();
    let graph = build_recovery_graph(&registry, Some("robot-1"));
    assert!(!graph.nodes.is_empty());
    assert!(graph.nodes.iter().any(|n| n.id == "robot-1"));
}

fn rel(from: &str, to: &str, kind: EntityRelationshipKind) -> EntityRelationship {
    EntityRelationship { from_id: from.to_string(), to_id: to.to_string(), kind }
}

fn fleet_registry() -> EntityRegistry {
    let mut robot = entity("robot-1", EntityKind::Robot, EntityHealthStatus::Degraded, None);
    robot.display_name = Some("Rover One".to_string());
    let mut camera = entity("camera-1", EntityKind::Camera, EntityHealthStatus::Warning, Some("robot-1"));
    camera.name = Some("front camera".to_string());
    EntityRegistry {
        entities: vec![
            robot,
            camera,
            entity("gps-1", EntityKind::Gps, EntityHealthStatus::Healthy, None),
            entity("fleet-1", EntityKind::Fleet, EntityHealthStatus::Healthy, None),
            entity("hazard-1", EntityKind::Hazard, EntityHealthStatus::Unknown, None),
            entity("island-1", EntityKind::Robot, EntityHealthStatus::Offline, None),
        ],
        relationships: vec![
            rel("robot-1", "gps-1", EntityRelationshipKind::DependsOn),
            rel("fleet-1", "robot-1", EntityRelationshipKind::Contains),
            rel("hazard-1", "fleet-1", EntityRelationshipKind::ConnectedTo),
        ],
    }
}

#[test]
fn rooted_graph_orders_nodes_by_depth_then_id() {
    let graph = build_recovery_graph(&fleet_registry(), Some("gps-1"));
    let nodes: Vec<(String, u32)> = graph.nodes.iter().map(|n| (n.id.clone(), n.depth)).collect();
    assert_eq!(
        nodes,
        vec![
            ("gps-1".to_string(), 0),
            ("robot-1".to_string(), 1),
            ("fleet-1".to_string(), 2),
            ("hazard-1".to_string(), 3),
        ]
    );
    assert_eq!(graph.root_entity_id.as_deref(), Some("gps-1"));
    let robot = &graph.nodes[1];
    assert_eq!(robot.display_name, "Rover One");
    assert_eq!(robot.health_status, "Degraded");
    assert!(robot.recoverable);
    let hazard = graph.nodes.iter().find(|n| n.id == "hazard-1").unwrap();
    assert!(!hazard.recoverable);
    assert!(!graph.nodes.iter().any(|n| n.id == "island-1"));
    assert!(!graph.nodes.iter().any(|n| n.id == "camera-1"));
}

#[test]
fn parent_links_widen_the_graph_without_depth() {
    let graph = build_recovery_graph(&fleet_registry(), Some("camera-1"));
    let nodes: Vec<(String, u32)> = graph.nodes.iter().map(|n| (n.id.clone(), n.depth)).collect();
    assert_eq!(
        nodes,
        vec![
            ("camera-1".to_string(), 0),
            ("fleet-1".to_string(), u32::MAX),
            ("gps-1".to_string(), u32::MAX),
            ("hazard-1".to_string(), u32::MAX),
            ("robot-1".to_string(), u32::MAX),
        ]
    );
    assert_eq!(graph.nodes[0].display_name, "front camera");
    assert_eq!(graph.dependency_edges.len(), 4);
    assert_eq!(graph.dependency_edges[3].relationship, "child_of");
}

#[test]
fn graph_edges_follow_relationships_and_parents() {
    let graph = build_recovery_graph(&fleet_registry(), None);
    let dep: Vec<(String, String, String, bool)> = graph
        .dependency_edges
        .iter()
        .map(|e| (e.from.clone(), e.to.clone(), e.relationship.clone(), e.critical))
        .collect();
    assert_eq!(
        dep,
        vec![
            ("robot-1".to_string(), "gps-1".to_string(), "depends_on".to_string(), true),
            ("fleet-1".to_string(), "robot-1".to_string(), "contains".to_string(), false),
            ("hazard-1".to_string(), "fleet-1".to_string(), "connected_to".to_string(), false),
            ("camera-1".to_string(), "robot-1".to_string(), "child_of".to_string(), false),
        ]
    );
    let imp: Vec<(String, String, String, bool)> = graph
        .impact_edges
        .iter()
        .map(|e| (e.from.clone(), e.to.clone(), e.relationship.clone(), e.critical))
        .collect();
    assert_eq!(
        imp,
        vec![
            ("gps-1".to_string(), "robot-1".to_string(), "impacts_depends_on".to_string(), true),
            ("robot-1".to_string(), "fleet-1".to_string(), "impacts_contains".to_string(), false),
            ("fleet-1".to_string(), "hazard-1".to_string(), "impacts_connected_to".to_string(), false),
            ("robot-1".to_string(), "camera-1".to_string(), "parent_impact".to_string(), true),
        ]
    );
    assert_eq!(graph.recovery_edges.len(), 1);
    assert_eq!(graph.recovery_edges[0].from, "robot-1");
    assert!(graph.nodes.iter().all(|n| n.depth == 0));
    assert_eq!(graph.nodes.len(), 6);
    let ids: Vec<&str> = graph.nodes.iter().map(|n| n.id.as_str()).collect();
    assert_eq!(ids, vec!["camera-1", "fleet-1", "gps-1", "hazard-1", "island-1", "robot-1"]);
    assert!(graph.root_entity_id.is_none());
}

#[test]
fn unknown_root_gives_graph_without_nodes() {
    let graph = build_recovery_graph(&fleet_registry(), Some("ghost"));
    assert!(graph.nodes.is_empty());
    assert!(graph.dependency_edges.is_empty());
}

#[test]
fn recoverable_entities_skip_hazards_in_order() {
    let targets = list_recoverable_entities(&fleet_registry());
    let ids: Vec<(&str, &str)> = targets.iter().map(|t| (t.id.as_str(), t.display_name.as_str())).collect();
    assert_eq!(
        ids,
        vec![
            ("robot-1", "Rover One"),
            ("camera-1", "front camera"),
            ("gps-1", "gps-1"),
            ("fleet-1", "fleet-1"),
            ("island-1", "island-1"),
        ]
    );
}

#[test]
fn strategy_labels_parse_back_in_any_case() {
    assert_eq!(parse_strategy_for_playbook("RESTART_ROBOT"), OrchestratorStrategy::RestartRobot);
    assert_eq!(parse_strategy("Switch_Sensor"), OrchestratorStrategy::SwitchSensor);
    assert_eq!(parse_strategy("Warm_Boot"), OrchestratorStrategy::Custom("warm_boot".to_string()));
}
