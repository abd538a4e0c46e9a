//! Operations alerting: the choices behind PagerDuty events.
use vstd::prelude::*;
use crate::text::{seq_contains, str_contains};

verus! {

/// Severity of an operational alert.
#[derive(Debug, Clone, Copy, PartialEq, Eq, Structural)]
pub enum AlertSeverity {
    Critical,
    Warning,
    Info,
}

/// The PagerDuty severity of an alert: critical and warning keep their
/// name, anything else is `info`.
pub open spec fn spec_pagerduty_severity(s: AlertSeverity) -> Seq<char> {
    match s {
        AlertSeverity::Critical => "critical"@,
        AlertSeverity::Warning => "warning"@,
        AlertSeverity::Info => "info"@,
    }
}

/// The PagerDuty severity of an alert.
pub fn pagerduty_severity(s: AlertSeverity) -> (r: &'static str)
    ensures
        r@ == spec_pagerduty_severity(s),
{
    match s {
        AlertSeverity::Critical => "critical",
        AlertSeverity::Warning => "warning",
        AlertSeverity::Info => "info",
    }
}

/// The key an incident's PagerDuty events are grouped under: its own
/// PagerDuty key, else the id of the alert it came from; none when it has
/// neither, and then no event is sent.
pub fn incident_dedup_key(pagerduty_dedup_key: Option<&str>, source_alert_id: Option<&str>) -> (r: Option<String>)
    ensures
        r matches Some(k) ==> (match pagerduty_dedup_key {
            Some(d) => k@ == d@,
            None => source_alert_id matches Some(a) && k@ == a@,
        }),
        r is None <==> (pagerduty_dedup_key is None && source_alert_id is None),
{
    match pagerduty_dedup_key {
        Some(d) => Some(d.to_owned()),
        None => match source_alert_id {
            Some(a) => Some(a.to_owned()),
            None => None,
        },
    }
}

/// The PagerDuty action for an incident's status change: `resolve` when the
/// hint mentions resolving or the incident is resolved, else `acknowledge`.
pub fn incident_event_action(event_hint: &str, resolved: bool) -> (r: &'static str)
    ensures
        r@ == if seq_contains(event_hint@, "resolve"@) || resolved {
            "resolve"@
        } else {
            "acknowledge"@
        },
{
    if str_contains(event_hint, "resolve") || resolved {
        "resolve"
    } else {
        "acknowledge"
    }
}

} // verus!
