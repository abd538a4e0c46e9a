//! Entity verification: snapshot, relationship, dependency, kind and
//! configuration findings.

use spanda_platform::readiness::entity_health::{evaluate_entity_health, DeviceHealth, EntityHealthFacts};
use spanda_platform::readiness::entity_verify::{
    verify_entity, CompatItem, CompatSeverity, ConfigFinding, ConfigSeverity, EntityVerifyFacts,
    EntityVerifyReport, FleetVerifyFinding, HumanVerifyFacts, MissionVerification, ProgramVerifyFacts,
    RobotProgramFacts,
};
use spanda_platform::recovery::entity::{
    EntityHealthStatus, EntityKind, EntityReadinessStatus, EntityRecord, EntityRegistry, EntityRelationship,
    EntityRelationshipKind, EntityTrustStatus,
};

fn record(id: &str, kind: EntityKind) -> EntityRecord {
    EntityRecord {
        id: id.to_string(),
        entity_type: kind,
        health_status: EntityHealthStatus::Healthy,
        readiness_status: EntityReadinessStatus::Ready,
        trust_status: EntityTrustStatus::Trusted,
        name: None,
        display_name: None,
        parent_id: None,
        children_ids: Vec::new(),
        capabilities: Vec::new(),
        package: None,
        provider: None,
    }
}

fn rel(from: &str, to: &str, kind: EntityRelationshipKind) -> EntityRelationship {
    EntityRelationship { from_id: from.to_string(), to_id: to.to_string(), kind }
}

fn warehouse() -> EntityRegistry {
    let mut mission = record("mission-1", EntityKind::Mission);
    mission.readiness_status = EntityReadinessStatus::NotReady;
    mission.name = Some("deliver".to_string());
    let mut site = record("site-1", EntityKind::Facility);
    site.children_ids = vec!["rover-001".to_string(), "dock-9".to_string()];
    EntityRegistry {
        entities: vec![
            record("rover-001", EntityKind::Robot),
            record("gps-001", EntityKind::Gps),
            record("fleet-1", EntityKind::Fleet),
            mission,
            record("op-1", EntityKind::Human),
            site,
            record("org-1", EntityKind::Organization),
            record("pkg-nav", EntityKind::Package),
            record("mqtt", EntityKind::Provider),
            record("cam-9", EntityKind::Camera),
            record("zone-x", EntityKind::Mission),
        ],
        relationships: vec![
            rel("rover-001", "gps-001", EntityRelationshipKind::Contains),
            rel("rover-001", "mission-1", EntityRelationshipKind::ParticipatesIn),
            rel("fleet-1", "rover-001", EntityRelationshipKind::Owns),
            rel("fleet-1", "ghost-robot", EntityRelationshipKind::Contains),
            rel("rover-001", "base-1", EntityRelationshipKind::DependsOn),
            rel("base-1", "power-1", EntityRelationshipKind::DependsOn),
            rel("gps-001", "base-1", EntityRelationshipKind::DependsOn),
        ],
    }
}

fn pool() -> EntityHealthFacts {
    EntityHealthFacts {
        lifecycle_state: "active".to_string(),
        devices: vec![DeviceHealth {
            id: "gps-001".to_string(),
            readiness_blocked: true,
            blockers: vec!["no fix".to_string()],
            firmware_supported: true,
            calibration_expired: false,
            quarantined: true,
            quarantine_reasons: vec!["tamper".to_string(), "drift".to_string()],
        }],
        robot_compute_devices: Vec::new(),
        humans: Vec::new(),
        health_checks: None,
    }
}

fn facts() -> EntityVerifyFacts {
    EntityVerifyFacts {
        include_dependencies: false,
        humans: vec![HumanVerifyFacts {
            id: "op-1".to_string(),
            available: false,
            cert_expiries: vec![Some("2030-01-01".to_string()), Some("2020-01-01".to_string()), None],
        }],
        today: "2026-03-01".to_string(),
        providers: Vec::new(),
        config_findings: vec![
            ConfigFinding {
                code: "E100".to_string(),
                severity: ConfigSeverity::Warning,
                message: "rover-001 has no battery profile".to_string(),
            },
            ConfigFinding { code: "I1".to_string(), severity: ConfigSeverity::Info, message: "all good".to_string() },
        ],
        program: None,
    }
}

fn rows(report: &EntityVerifyReport) -> Vec<(String, String, String, String)> {
    report
        .findings
        .iter()
        .map(|f| (f.category.clone(), f.severity.clone(), f.message.clone(), f.source.clone()))
        .collect()
}

fn row(c: &str, s: &str, m: &str, src: &str) -> (String, String, String, String) {
    (c.to_string(), s.to_string(), m.to_string(), src.to_string())
}

#[test]
fn verify_robot_entity_returns_report() {
    let report = verify_entity("rover-001", &warehouse(), &pool(), &facts()).expect("rover-001 should exist");
    assert_eq!(report.entity_id, "rover-001");
    assert_eq!(report.entity_type, "robot");
    assert_eq!(
        rows(&report),
        vec![
            row("relationship", "error", "Relationship DependsOn references missing entity 'base-1'", "entity_graph"),
            row("device", "error", "Device 'gps-001' blocks readiness: no fix", "device_pool"),
            row("quarantine", "error", "Device 'gps-001' is quarantined: tamper, drift", "device_pool"),
            row("mission", "warning", "Linked mission 'mission-1' is not ready", "entity_registry"),
            row("E100", "warning", "rover-001 has no battery profile", "config_validation"),
        ]
    );
    assert!(!report.compatible);
    assert_eq!(report.relationships_checked, 4);
    assert_eq!(report.dependencies_checked, 0);
    assert_eq!(report.health_status, "healthy");
    assert_eq!(report.readiness_status, "ready");
    assert_eq!(report.trust_status, "trusted");
}

#[test]
fn verify_unknown_entity_returns_none() {
    assert!(verify_entity("missing-entity", &warehouse(), &pool(), &facts()).is_none());
}

#[test]
fn verify_device_entity_checks_pool() {
    let report = verify_entity("gps-001", &warehouse(), &pool(), &facts()).expect("gps-001 should exist");
    assert_eq!(report.entity_type, "gps");
    assert_eq!(
        rows(&report)[1..].to_vec(),
        vec![
            row("device", "error", "Device blocks readiness: no fix", "device_pool"),
            row("quarantine", "error", "Device quarantined: tamper, drift", "device_pool"),
        ]
    );
    let cam = verify_entity("cam-9", &warehouse(), &pool(), &facts()).unwrap();
    assert_eq!(
        rows(&cam),
        vec![row("device", "warning", "Device entity 'cam-9' not found in device registry pool", "device_pool")]
    );
    assert!(cam.compatible);
}

#[test]
fn evaluate_robot_health_returns_report() {
    let report = evaluate_entity_health("rover-001", &warehouse(), &pool()).expect("rover-001");
    assert_eq!(report.entity_id, "rover-001");
}

#[test]
fn dependency_chain_is_followed_when_asked() {
    let mut f = facts();
    f.include_dependencies = true;
    let report = verify_entity("gps-001", &warehouse(), &pool(), &f).unwrap();
    assert_eq!(report.dependencies_checked, 2);
    let deps: Vec<_> = rows(&report).into_iter().filter(|r| r.0 == "dependency").collect();
    assert_eq!(
        deps,
        vec![
            row("dependency", "error", "Dependency chain references missing entity 'base-1'", "entity_graph"),
            row("dependency", "error", "Dependency chain references missing entity 'power-1'", "entity_graph"),
        ]
    );
}

#[test]
fn fleet_verification_checks_members_and_robots() {
    let mut f = facts();
    f.program = Some(ProgramVerifyFacts {
        robots: vec![RobotProgramFacts {
            robot_id: "rover-001".to_string(),
            hardware: vec![
                CompatItem { category: "gpu".to_string(), severity: CompatSeverity::Pass, message: "ok".to_string() },
                CompatItem { category: "memory".to_string(), severity: CompatSeverity::Warning, message: "tight".to_string() },
            ],
            missions: vec![MissionVerification {
                mission_name: Some("deliver".to_string()),
                robot: Some("rover-001".to_string()),
                achievable: false,
                issues: vec!["range".to_string(), "payload".to_string()],
            }],
        }],
        missions: Vec::new(),
        fleet_findings: vec![FleetVerifyFinding {
            category: "fleet".to_string(),
            severity: "info".to_string(),
            message: "2 robots".to_string(),
        }],
    });
    let report = verify_entity("fleet-1", &warehouse(), &pool(), &f).unwrap();
    assert_eq!(
        rows(&report),
        vec![
            row("relationship", "error", "Relationship Contains references missing entity 'ghost-robot'", "entity_graph"),
            row("fleet", "error", "Fleet member 'ghost-robot' not found in entity registry", "entity_graph"),
            row("fleet", "info", "2 robots", "fleet_verify"),
            row("device", "error", "Device 'gps-001' blocks readiness: no fix", "device_pool"),
            row("quarantine", "error", "Device 'gps-001' is quarantined: tamper, drift", "device_pool"),
            row("memory", "warning", "tight", "hardware_verify"),
            row(
                "mission",
                "error",
                "Mission 'deliver' not achievable on robot Some(\"rover-001\"): range; payload",
                "mission_verify",
            ),
            row("mission", "warning", "Linked mission 'mission-1' is not ready", "entity_registry"),
        ]
    );
}

#[test]
fn mission_human_and_site_verification() {
    let mut f = facts();
    f.program = Some(ProgramVerifyFacts {
        robots: Vec::new(),
        missions: vec![
            MissionVerification { mission_name: Some("deliver".to_string()), robot: None, achievable: false, issues: Vec::new() },
            MissionVerification { mission_name: Some("other".to_string()), robot: None, achievable: false, issues: Vec::new() },
        ],
        fleet_findings: Vec::new(),
    });
    let mission = verify_entity("mission-1", &warehouse(), &pool(), &f).unwrap();
    assert_eq!(
        rows(&mission),
        vec![
            row("readiness", "error", "Entity readiness is not_ready", "entity_snapshot"),
            row("mission", "error", "Mission entity is not ready", "entity_snapshot"),
            row("mission", "error", "Mission 'deliver' not achievable on robot None: ", "mission_verify"),
        ]
    );
    let op = verify_entity("op-1", &warehouse(), &pool(), &facts()).unwrap();
    assert_eq!(
        rows(&op),
        vec![
            row("human", "error", "Operator 'op-1' is not available", "human_registry"),
            row("human", "error", "Operator 'op-1' has expired or missing certifications", "human_registry"),
        ]
    );
    let site = verify_entity("site-1", &warehouse(), &pool(), &facts()).unwrap();
    assert_eq!(
        rows(&site),
        vec![row("facility", "error", "Child entity 'dock-9' not found for 'site-1'", "entity_graph")]
    );
}

#[test]
fn organization_package_provider_and_generic_checks() {
    let org = verify_entity("org-1", &warehouse(), &pool(), &facts()).unwrap();
    assert_eq!(
        rows(&org),
        vec![row("organization", "info", "Organization 'org-1' has no owned fleets or children", "entity_graph")]
    );
    let pkg = verify_entity("pkg-nav", &warehouse(), &pool(), &facts()).unwrap();
    assert_eq!(
        rows(&pkg),
        vec![row("package", "warning", "Package 'pkg-nav' not listed in resolved providers", "package_manifest")]
    );
    let mut f = facts();
    f.providers = vec!["ros2".to_string()];
    let provider = verify_entity("mqtt", &warehouse(), &pool(), &f).unwrap();
    assert_eq!(
        rows(&provider),
        vec![row("provider", "warning", "Provider 'mqtt' not in resolved provider list", "provider_registry")]
    );
    assert!(verify_entity("pkg-nav", &warehouse(), &pool(), &f).unwrap().findings.is_empty());
    let mut reg = warehouse();
    let mut gateway = record("hub", EntityKind::Team);
    gateway.entity_type = EntityKind::Zone;
    reg.entities.push(gateway);
    let mut plain = record("tower", EntityKind::Building);
    plain.entity_type = EntityKind::Compute;
    reg.entities.push(plain);
    let mut person = record("crew", EntityKind::Team);
    person.capabilities = vec!["lift".to_string()];
    reg.entities.push(person);
    let crew = verify_entity("crew", &reg, &pool(), &facts()).unwrap();
    assert!(crew.findings.is_empty());
    assert_eq!(crew.capabilities, vec!["lift".to_string()]);
}

