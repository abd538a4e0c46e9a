//! Risks and warnings attached to readiness forecast horizons.

use spanda_platform::fault_impact::ReadinessIssue;
use spanda_platform::readiness::diagnostics::collect_readiness_diagnostics;
use spanda_platform::readiness::forecast::{forecast_warnings, horizon_risks, projected_risks};
use spanda_platform::readiness::severity::ReadinessSeverity;

fn issue(severity: ReadinessSeverity, message: &str) -> ReadinessIssue {
    ReadinessIssue {
        factor: "Safety".to_string(),
        severity,
        message: message.to_string(),
        suggested_action: None,
    }
}

#[test]
fn projected_risks_carry_first_three_issues() {
    let issues = vec![
        issue(ReadinessSeverity::Critical, "no estop"),
        issue(ReadinessSeverity::High, "weak geofence"),
        issue(ReadinessSeverity::Medium, "slow watchdog"),
        issue(ReadinessSeverity::Low, "missing docs"),
    ];
    let risks = projected_risks(false, &issues, 75);
    assert_eq!(
        risks,
        vec![
            "mission not ready at current evaluation".to_string(),
            "safety coverage 75% may degrade under field stress".to_string(),
            "Critical: no estop".to_string(),
            "High: weak geofence".to_string(),
            "Medium: slow watchdog".to_string(),
        ]
    );
}

#[test]
fn ready_program_with_full_coverage_projects_no_risk() {
    assert!(projected_risks(true, &[], 100).is_empty());
}

#[test]
fn horizon_below_minimum_is_flagged() {
    let projected = vec!["Critical: no estop".to_string()];
    let (risks, at_risk) = horizon_risks(&projected, Some("downward trend".to_string()), 72, 80, 14);
    assert!(at_risk);
    assert_eq!(
        risks,
        vec![
            "Critical: no estop".to_string(),
            "downward trend".to_string(),
            "predicted score 72 below minimum 80 at 14d".to_string(),
        ]
    );
    let (risks, at_risk) = horizon_risks(&projected, Some(String::new()), 80, 80, 7);
    assert!(!at_risk);
    assert_eq!(risks, projected);
}

#[test]
fn missing_history_adds_heuristic_warning() {
    let trend = vec!["few samples".to_string()];
    let w = forecast_warnings(&trend, 0);
    assert_eq!(w.len(), 2);
    assert!(w[1].starts_with("no readiness history; forecast uses heuristic degradation only"));
    assert_eq!(forecast_warnings(&trend, 3), trend);
}

#[test]
fn severity_debug_names_match_variants() {
    assert_eq!(ReadinessSeverity::Critical.debug_name(), format!("{:?}", ReadinessSeverity::Critical));
    assert_eq!(ReadinessSeverity::Info.debug_name(), "Info");
}

#[test]
fn readiness_issues_become_diagnostics() {
    let issues = vec![
        ReadinessIssue {
            factor: "Mission Requirements".to_string(),
            severity: ReadinessSeverity::High,
            message: "no estop".to_string(),
            suggested_action: Some("add estop".to_string()),
        },
        issue(ReadinessSeverity::Medium, "slow watchdog"),
    ];
    let ds = collect_readiness_diagnostics(&issues);
    assert_eq!(ds.len(), 2);
    assert_eq!(ds[0].message, "no estop");
    assert_eq!((ds[0].line, ds[0].column), (1, 1));
    assert_eq!(ds[0].severity, "error");
    assert_eq!(ds[0].category, "readiness:mission requirements");
    assert_eq!(ds[0].suggested_fix.as_deref(), Some("add estop"));
    assert_eq!(ds[1].severity, "warning");
    assert_eq!(ds[1].category, "readiness:safety");
    assert_eq!(ds[1].suggested_fix, None);
}
