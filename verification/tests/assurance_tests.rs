//! Runtime fault, mission risk, deployment gate and plugin manifest tests.

use spanda_platform::faults::{
    default_recovery_for_kind, diagnosis_what, event_matches_fault, fault_kind_to_trace_event,
    fault_readiness_impact, html_escape, is_fault_event, likely_cause, overall_health,
    recommend_recovery, scan_passed, status_icon, trace_event_to_kind, FaultTrigger,
    RuntimeFaultKind, RuntimeHealthStatus,
};
use spanda_platform::fault_impact::{
    apply_fault_readiness_impact, fault_counts, FaultSummary, ReadinessFactorScore, ReadinessReport,
    ReadinessStatus,
};
use spanda_platform::plugin::{
    default_filesystem, CapabilitiesSection, CliSection, CompatibilitySection, ControlCenterSection,
    HooksSection, PluginError, PluginManifest, PluginSection, PluginType, RecoverySection,
    SecuritySection, TargetPlatform,
};
use spanda_platform::readiness::gates::{
    evaluate_deployment_gates, AuditCounts, DeploymentGatePolicy, GateInputs, PackageTrust,
    ProvenanceOutcome,
};
use spanda_platform::readiness::severity::{severity_label, ReadinessSeverity};
use spanda_platform::ops::{incident_dedup_key, incident_event_action, pagerduty_severity, AlertSeverity};
use spanda_platform::risk::{format_mission_risk_text, MissionRiskAssessment, MissionRiskScore};
use spanda_platform::risk::{
    evaluate_mission_risk, factor, risk_tier, weighted_risk, MissionRiskFactor, MissionRiskFormat,
    MissionRiskInputs,
};

#[test]
fn health_status_names_and_ranks() {
    assert_eq!(RuntimeHealthStatus::Rebooted.as_str(), "Rebooted");
    assert_eq!(RuntimeHealthStatus::Rebooted.severity_rank(), 3);
    assert_eq!(RuntimeHealthStatus::Unknown.severity_rank(), 6);
    assert_eq!(RuntimeHealthStatus::default(), RuntimeHealthStatus::Unknown);
    assert_eq!(RuntimeFaultKind::SensorDriverCrash.as_str(), "sensor_driver_crash");
    assert_eq!(status_icon(RuntimeHealthStatus::Crashed), "CRASH");
}

#[test]
fn overall_health_is_most_severe() {
    assert_eq!(overall_health(&[]), RuntimeHealthStatus::Healthy);
    assert_eq!(
        overall_health(&[RuntimeHealthStatus::Warning, RuntimeHealthStatus::Critical, RuntimeHealthStatus::Degraded]),
        RuntimeHealthStatus::Critical
    );
    assert!(scan_passed(&[RuntimeHealthStatus::Rebooted, RuntimeHealthStatus::Warning]));
    assert!(!scan_passed(&[RuntimeHealthStatus::Healthy, RuntimeHealthStatus::Crashed]));
}

#[test]
fn diagnosis_and_default_recovery() {
    assert_eq!(diagnosis_what(RuntimeFaultKind::ProcessCrash, "nav"), "process_crash on 'nav'");
    assert_eq!(likely_cause(RuntimeFaultKind::OsReboot), "Power loss, kernel panic, or watchdog-forced reboot");
    let actions = default_recovery_for_kind(RuntimeFaultKind::ProcessCrash, "nav");
    assert_eq!(actions.len(), 1);
    assert_eq!(actions[0].action, "restart nav");
    assert!(!actions[0].requires_approval);
    let leak = default_recovery_for_kind(RuntimeFaultKind::MemoryLeak, "nav");
    assert_eq!(leak[0].action, "notify_operator");
    assert!(leak[0].requires_approval);
}

#[test]
fn triggers_override_default_recovery() {
    let triggers = vec![
        FaultTrigger { event: "OnCrash".to_string(), actions: vec!["notify operator".to_string(), "kill_switch".to_string()] },
        FaultTrigger { event: "memory".to_string(), actions: vec!["gc".to_string()] },
    ];
    assert!(event_matches_fault("OnCrash", RuntimeFaultKind::RuntimePanic));
    assert!(!event_matches_fault("OnCrash", RuntimeFaultKind::MemoryLeak));
    let actions = recommend_recovery(&triggers, false, RuntimeFaultKind::ProcessCrash, "nav");
    assert_eq!(actions.len(), 2);
    assert!(actions[0].requires_approval);
    assert!(actions[0].safety_validated);
    assert!(!actions[1].safety_validated);
    let fallback = recommend_recovery(&triggers, false, RuntimeFaultKind::RestartLoop, "nav");
    assert_eq!(fallback[0].action, "enter SafeMode");
}

#[test]
fn readiness_impact_of_fault_status() {
    let (s, a) = fault_readiness_impact(RuntimeHealthStatus::Crashed);
    assert_eq!(s, ReadinessSeverity::Critical);
    assert_eq!(a, "Block deployment until fault is resolved");
    assert_eq!(fault_readiness_impact(RuntimeHealthStatus::Unknown).0, ReadinessSeverity::Info);
    assert_eq!(severity_label(ReadinessSeverity::High), "error");
    assert_eq!(severity_label(ReadinessSeverity::Medium), "warning");
}

#[test]
fn trace_events_round_trip() {
    assert_eq!(fault_kind_to_trace_event(RuntimeFaultKind::PackageCrash), "fault_crash");
    assert!(is_fault_event(fault_kind_to_trace_event(RuntimeFaultKind::TelemetryDrop)));
    assert!(is_fault_event("fault_custom"));
    assert!(!is_fault_event("mission_start"));
    assert_eq!(trace_event_to_kind("os_reboot"), RuntimeFaultKind::UnexpectedReboot);
    assert_eq!(trace_event_to_kind("cpu_overload"), RuntimeFaultKind::AbnormalShutdown);
    assert_eq!(trace_event_to_kind(RuntimeFaultKind::Deadlock.as_str()), RuntimeFaultKind::Deadlock);
}

#[test]
fn html_escape_replaces_markup() {
    assert_eq!(html_escape("a<b & \"c\">"), "a&lt;b &amp; &quot;c&quot;&gt;");
    assert_eq!(html_escape("plain"), "plain");
    assert!(!html_escape("<<>>\"").contains('<'));
}

fn inputs() -> MissionRiskInputs {
    MissionRiskInputs {
        readiness_total: 80,
        readiness_maximum: 100,
        readiness_pct: 80,
        mission_ready: true,
        safety_coverage_pct: 60,
        safety_scenarios: 5,
        safety_recommendations: vec!["Add stop_if".to_string()],
        recovery_coverage_pct: 100,
        recovery_uncovered: 0,
        recovery_recommendations: vec!["Add stop_if".to_string()],
        trust_score: 50,
        trust_tier: "bronze".to_string(),
        contract_passed: true,
        contract_checks_passed: vec![true, false],
        contract_issues: Vec::new(),
        what_if_risk: 30,
        what_if_high_risk: 3,
        what_if_total: 10,
        hardware_compatible: false,
        hardware_errors: 2,
        has_fleet: true,
    }
}

#[test]
fn mission_risk_composition() {
    let r = evaluate_mission_risk(&inputs(), "rover.sd");
    assert_eq!(r.program, "rover.sd");
    let scores: Vec<u32> = r.factors.iter().map(|f| f.score).collect();
    assert_eq!(scores, vec![10, 40, 0, 50, 20, 30, 24, 15]);
    assert_eq!(r.factors[0].detail, "mission_ready=true, score 80/100");
    assert_eq!(r.factors[3].detail, "composite trust 50/100 tier=bronze");
    assert_eq!(r.factors[6].name, "hardware_margin");
    assert_eq!(r.factors[7].name, "fleet_dependency");
    // (10*25 + 40*20 + 0*20 + 50*15 + 20*10 + 30*10) / 100 = 23
    assert_eq!(r.score.total, 23);
    assert_eq!(r.score.tier, "low");
    assert_eq!(
        r.mitigations,
        vec!["Add stop_if".to_string(), "Review trust posture (tier=bronze) before field rollout".to_string()]
    );
    assert_eq!(MissionRiskFormat::default(), MissionRiskFormat::Text);
}

#[test]
fn weighted_risk_and_tiers() {
    let fs: Vec<MissionRiskFactor> = vec![
        factor("a", 1, 250, "x".to_string()),
        factor("b", 0, 90, "y".to_string()),
        factor("c", 3, 20, "z".to_string()),
    ];
    assert_eq!(fs[0].score, 100);
    assert_eq!(weighted_risk(&fs), 40);
    assert_eq!(weighted_risk(&Vec::new()), 0);
    assert_eq!(risk_tier(25), "low");
    assert_eq!(risk_tier(26), "medium");
    assert_eq!(risk_tier(75), "high");
    assert_eq!(risk_tier(76), "critical");
}

fn gate_inputs() -> GateInputs {
    GateInputs {
        readiness_total: 92,
        mission_ready: true,
        audit: AuditCounts { critical: 0, high: 0, medium: 2, low: 1 },
        capability_failed_rows: 0,
        capability_trace_errors: 0,
        package_trust: Some(vec![
            PackageTrust { package: "spanda-ros2".to_string(), score: 90, passed: true },
            PackageTrust { package: "sketchy".to_string(), score: 20, passed: false },
        ]),
        provenance: None,
        issues: vec![("Health".to_string(), ReadinessSeverity::Medium)],
    }
}

#[test]
fn deployment_gates_default_policy() {
    let report = evaluate_deployment_gates(&DeploymentGatePolicy::default(), &gate_inputs());
    let names: Vec<&str> = report.gates.iter().map(|g| g.name.as_str()).collect();
    assert_eq!(names, vec!["readiness", "safety", "capability", "package_trust", "health"]);
    assert_eq!(report.gates[0].message, "score 92 (min 80), mission_ready=true");
    assert_eq!(report.gates[1].message, "critical=0, high=0, medium=2, low=1");
    assert_eq!(report.gates[3].message, "low trust packages: sketchy (20/100)");
    assert!(!report.passed);
}

#[test]
fn deployment_gates_production_requires_provenance() {
    let mut i = gate_inputs();
    i.package_trust = None;
    let report = evaluate_deployment_gates(&DeploymentGatePolicy::production(), &i);
    let names: Vec<&str> = report.gates.iter().map(|g| g.name.as_str()).collect();
    assert_eq!(
        names,
        vec!["readiness", "safety", "capability", "official_provenance", "registry_signatures", "health"]
    );
    assert!(!report.passed);
    i.provenance = Some(ProvenanceOutcome {
        official_overrides: Vec::new(),
        registry_signature_failures: Vec::new(),
    });
    let ok = evaluate_deployment_gates(&DeploymentGatePolicy::production(), &i);
    assert!(ok.passed);
    i.issues.push(("Health".to_string(), ReadinessSeverity::Critical));
    let bad = evaluate_deployment_gates(&DeploymentGatePolicy::production(), &i);
    assert!(!bad.passed);
    assert_eq!(bad.gates.last().unwrap().message, "1 high-severity health issues");
}

fn manifest(name: &str, kind: &str, caps: Vec<&str>) -> PluginManifest {
    PluginManifest {
        plugin: PluginSection {
            name: name.to_string(),
            version: "0.1.0".to_string(),
            publisher: "acme".to_string(),
            description: None,
            license: None,
            plugin_type: kind.to_string(),
        },
        compatibility: CompatibilitySection::default(),
        capabilities: CapabilitiesSection { requires: caps.into_iter().map(String::from).collect() },
        security: SecuritySection::default(),
        hooks: HooksSection { enabled: Vec::new() },
        control_center: ControlCenterSection { panels: Vec::new(), entity_tabs: Vec::new(), routes: Vec::new() },
        cli: CliSection { commands: Vec::new() },
        recovery: RecoverySection { extensions: Vec::new() },
    }
}

#[test]
fn plugin_manifest_validation() {
    assert_eq!(manifest("p", "recovery", vec!["camera.read"]).validate(), Ok(()));
    assert_eq!(
        manifest(" \t", "recovery", Vec::new()).validate(),
        Err(PluginError::Manifest("plugin.name must not be empty".to_string()))
    );
    assert_eq!(
        manifest("p", "quantum", Vec::new()).validate(),
        Err(PluginError::Manifest("unknown plugin type: quantum".to_string()))
    );
    assert_eq!(
        manifest("p", "cli", vec!["camera.read", "warp.drive"]).validate(),
        Err(PluginError::Capability("unknown capability 'warp.drive'".to_string()))
    );
    assert_eq!(manifest("p", "quantum", Vec::new()).plugin_type(), PluginType::Readiness);
    assert_eq!(manifest("p", "cli", Vec::new()).plugin_type(), PluginType::Cli);
}

#[test]
fn plugin_manifest_defaults_and_paths() {
    let m = manifest("p", "cli", vec!["lidar.read", "camera.read", "lidar.read"]);
    assert_eq!(m.capability_set(), vec!["camera.read".to_string(), "lidar.read".to_string()]);
    assert_eq!(m.artifact_path("plugins/p", "wasm", TargetPlatform::Linux), "plugins/p/plugin.wasm");
    assert_eq!(m.artifact_path("plugins/p/", "typescript", TargetPlatform::MacOs), "plugins/p/index.js");
    assert_eq!(m.artifact_path("", "lua", TargetPlatform::Windows), "plugin.lua");
    let s = SecuritySection::default();
    assert!(s.sandbox && !s.signed && !s.network);
    assert_eq!(default_filesystem(), "read-only");
}

#[test]
fn native_artifact_follows_platform() {
    let m = manifest("p", "cli", Vec::new());
    assert_eq!(m.artifact_path("plugins/p", "native", TargetPlatform::Linux), "plugins/p/libplugin.so");
    assert_eq!(m.artifact_path("plugins/p", "native", TargetPlatform::MacOs), "plugins/p/libplugin.dylib");
    assert_eq!(m.artifact_path("plugins/p", "native", TargetPlatform::Windows), "plugins/p/plugin.dll");
    assert_eq!(m.artifact_path("plugins/p", "native", TargetPlatform::Other), "plugins/p/libplugin.so");
}

#[test]
fn manifest_errors_have_their_kind() {
    assert!(matches!(manifest("p", "quantum", vec!["warp.drive"]).validate(), Err(PluginError::Manifest(_))));
    let mut m = manifest("p", "cli", Vec::new());
    m.plugin.version = String::new();
    assert_eq!(m.validate(), Err(PluginError::Manifest("plugin.version must not be empty".to_string())));
}

fn fault(kind: RuntimeFaultKind, status: RuntimeHealthStatus, message: &str) -> FaultSummary {
    FaultSummary { kind, status, message: message.to_string() }
}

fn readiness(status: ReadinessStatus) -> ReadinessReport {
    ReadinessReport {
        status,
        issues: Vec::new(),
        factors: vec![
            ReadinessFactorScore { factor: "Safety".to_string(), score: 90 },
            ReadinessFactorScore { factor: "Health".to_string(), score: 10 },
            ReadinessFactorScore { factor: "Health".to_string(), score: 50 },
        ],
    }
}

#[test]
fn runtime_faults_lower_readiness() {
    let mut r = readiness(ReadinessStatus::Ready);
    apply_fault_readiness_impact(
        &mut r,
        &vec![
            fault(RuntimeFaultKind::MemoryLeak, RuntimeHealthStatus::Degraded, "heap grows"),
            fault(RuntimeFaultKind::UnexpectedReboot, RuntimeHealthStatus::Rebooted, "rebooted"),
        ],
    );
    assert_eq!(r.status, ReadinessStatus::Degraded);
    let issues: Vec<(String, ReadinessSeverity, String, Option<String>)> = r
        .issues
        .iter()
        .map(|i| (i.factor.clone(), i.severity, i.message.clone(), i.suggested_action.clone()))
        .collect();
    assert_eq!(
        issues,
        vec![
            (
                "Runtime".to_string(),
                ReadinessSeverity::Medium,
                "heap grows".to_string(),
                Some("Review degraded runtime before mission start".to_string()),
            ),
            ("Runtime".to_string(), ReadinessSeverity::High, "rebooted".to_string(), Some("Run post-reboot diagnostics".to_string())),
            (
                "Runtime".to_string(),
                ReadinessSeverity::High,
                "Unexpected reboot requires operator review before deployment".to_string(),
                Some("Run post-reboot diagnostics".to_string()),
            ),
        ]
    );
    let scores: Vec<u32> = r.factors.iter().map(|f| f.score).collect();
    assert_eq!(scores, vec![90, 0, 50]);
}

#[test]
fn critical_crash_blocks_readiness() {
    let mut r = readiness(ReadinessStatus::Degraded);
    apply_fault_readiness_impact(&mut r, &vec![fault(RuntimeFaultKind::ProcessCrash, RuntimeHealthStatus::Critical, "exit 139")]);
    assert_eq!(r.status, ReadinessStatus::NotReady);
    assert_eq!(r.issues[0].severity, ReadinessSeverity::Critical);
    let mut quiet = readiness(ReadinessStatus::Ready);
    apply_fault_readiness_impact(&mut quiet, &vec![fault(RuntimeFaultKind::TelemetryDrop, RuntimeHealthStatus::Warning, "gap")]);
    assert_eq!(quiet.status, ReadinessStatus::Ready);
    assert_eq!(quiet.factors[1].score, 10);
}

#[test]
fn fault_counts_for_reliability_evidence() {
    let kinds = vec![
        RuntimeFaultKind::ProcessCrash,
        RuntimeFaultKind::PackageCrash,
        RuntimeFaultKind::OsReboot,
        RuntimeFaultKind::CpuOverload,
    ];
    assert_eq!(fault_counts(&kinds), (2, 1, true));
    assert_eq!(fault_counts(&vec![RuntimeFaultKind::MemoryLeak]), (0, 0, false));
}

#[test]
fn mission_risk_text_lists_contributors_and_mitigations() {
    let report = MissionRiskAssessment {
        program: "rover.sd".to_string(),
        score: MissionRiskScore { total: 42, tier: "moderate".to_string() },
        factors: vec![factor("Readiness", 25, 40, "score 60/100".to_string())],
        mitigations: vec!["Add a geofence".to_string()],
    };
    assert_eq!(
        format_mission_risk_text(&report),
        "Mission risk: rover.sd\nRisk score: 42/100 (moderate)\n\nContributors:\n  Readiness — score 60/100 (weight 25, score 40)\n\nRecommended mitigations:\n  - Add a geofence"
    );
    let bare = MissionRiskAssessment { mitigations: Vec::new(), factors: Vec::new(), ..report };
    assert_eq!(format_mission_risk_text(&bare), "Mission risk: rover.sd\nRisk score: 42/100 (moderate)\n\nContributors:");
}

#[test]
fn pagerduty_choices() {
    assert_eq!(pagerduty_severity(AlertSeverity::Critical), "critical");
    assert_eq!(pagerduty_severity(AlertSeverity::Warning), "warning");
    assert_eq!(pagerduty_severity(AlertSeverity::Info), "info");
    assert_eq!(incident_dedup_key(Some("pd-1"), Some("alert-1")), Some("pd-1".to_string()));
    assert_eq!(incident_dedup_key(None, Some("alert-1")), Some("alert-1".to_string()));
    assert_eq!(incident_dedup_key(None, None), None);
    assert_eq!(incident_event_action("please resolve", false), "resolve");
    assert_eq!(incident_event_action("ack", true), "resolve");
    assert_eq!(incident_event_action("ack", false), "acknowledge");
}
