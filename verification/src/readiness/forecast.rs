//! Risks and warnings that a readiness forecast attaches to its horizons.
use vstd::prelude::*;
use crate::fault_impact::ReadinessIssue;
use crate::text::{append_dec, dec_text, texts};

verus! {

/// How many of the current issues a forecast carries forward.
pub const FORECAST_ISSUE_LIMIT: usize = 3;

/// An issue carried forward as a risk: `<Severity>: <message>`.
pub open spec fn issue_risk(i: ReadinessIssue) -> Seq<char> {
    i.severity.spec_debug_name() + ": "@ + i.message@
}

/// The risks carried forward from the first issues, at most three.
pub open spec fn issue_risks(issues: Seq<ReadinessIssue>) -> Seq<Seq<char>> {
    let n = if issues.len() < FORECAST_ISSUE_LIMIT { issues.len() as int } else { FORECAST_ISSUE_LIMIT as int };
    issues.take(n).map_values(|i: ReadinessIssue| issue_risk(i))
}

/// The risk a safety coverage below full brings.
pub open spec fn coverage_risk(pct: u32) -> Seq<char> {
    "safety coverage "@ + dec_text(pct as nat) + "% may degrade under field stress"@
}

/// The risks projected onto every horizon: the program not being mission
/// ready, safety coverage below 100%, then the first three issues.
pub open spec fn spec_projected_risks(mission_ready: bool, issues: Seq<ReadinessIssue>, pct: u32) -> Seq<Seq<char>> {
    (if mission_ready {
        Seq::empty()
    } else {
        seq!["mission not ready at current evaluation"@]
    }) + (if pct < 100 {
        seq![coverage_risk(pct)]
    } else {
        Seq::empty()
    }) + issue_risks(issues)
}

/// The risks projected onto every forecast horizon.
pub fn projected_risks(mission_ready: bool, issues: &[ReadinessIssue], safety_coverage_pct: u32) -> (r: Vec<String>)
    ensures
        texts(r@) == spec_projected_risks(mission_ready, issues@, safety_coverage_pct),
{
    let mut risks: Vec<String> = Vec::new();
    if !mission_ready {
        risks.push("mission not ready at current evaluation".to_owned());
    }
    if safety_coverage_pct < 100 {
        let mut line = "safety coverage ".to_owned();
        append_dec(&mut line, safety_coverage_pct as u64);
        line.append("% may degrade under field stress");
        risks.push(line);
    }
    let ghost head = texts(risks@);
    let n: usize = if issues.len() < FORECAST_ISSUE_LIMIT { issues.len() } else { FORECAST_ISSUE_LIMIT };
    let mut i: usize = 0;
    while i < n
        invariant
            n <= issues.len(),
            n == (if issues.len() < FORECAST_ISSUE_LIMIT { issues.len() } else { FORECAST_ISSUE_LIMIT }),
            i <= n,
            texts(risks@) == head + issues@.take(i as int).map_values(|x: ReadinessIssue| issue_risk(x)),
        decreases n - i,
    {
        let mut line = issues[i].severity.debug_name().to_owned();
        line.append(": ");
        line.append(issues[i].message.as_str());
        let ghost before = risks@;
        risks.push(line);
        assert(texts(risks@) =~= texts(before).push(issue_risk(issues@[i as int])));
        assert(issues@.take(i + 1).map_values(|x: ReadinessIssue| issue_risk(x)) =~= issues@.take(
            i as int,
        ).map_values(|x: ReadinessIssue| issue_risk(x)).push(issue_risk(issues@[i as int])));
        i = i + 1;
    }
    assert(texts(risks@) =~= spec_projected_risks(mission_ready, issues@, safety_coverage_pct));
    risks
}

/// The warning a horizon gets when its predicted score falls below the
/// minimum.
pub open spec fn below_minimum_risk(predicted: u32, minimum: u32, days: u32) -> Seq<char> {
    "predicted score "@ + dec_text(predicted as nat) + " below minimum "@ + dec_text(minimum as nat) + " at "@
        + dec_text(days as nat) + "d"@
}

/// The risks of one horizon: the projected risks, then the history
/// forecast's message when there is a non-empty one, then the
/// below-minimum warning when the predicted score is under the minimum;
/// and whether the horizon is at risk.
pub open spec fn spec_horizon_risks(
    projected: Seq<Seq<char>>,
    history_message: Option<Seq<char>>,
    predicted: u32,
    minimum: u32,
    days: u32,
) -> (Seq<Seq<char>>, bool) {
    let with_history = match history_message {
        Some(m) => if m.len() > 0 {
            projected.push(m)
        } else {
            projected
        },
        None => projected,
    };
    if predicted < minimum {
        (with_history.push(below_minimum_risk(predicted, minimum, days)), true)
    } else {
        (with_history, false)
    }
}

/// The risks of one forecast horizon and whether it is at risk.
pub fn horizon_risks(
    projected: &Vec<String>,
    history_message: Option<String>,
    predicted_score: u32,
    minimum_score: u32,
    days: u32,
) -> (r: (Vec<String>, bool))
    ensures
        (texts(r.0@), r.1) == spec_horizon_risks(
            texts(projected@),
            match history_message {
                Some(m) => Some(m@),
                None => None,
            },
            predicted_score,
            minimum_score,
            days,
        ),
{
    let mut risks = crate::text::copy_texts(projected);
    match history_message {
        Some(m) => {
            if !m.as_str().is_empty() {
                let ghost before = risks@;
                risks.push(m);
                assert(texts(risks@) =~= texts(before).push(m@));
            }
        },
        None => {},
    }
    let at_risk = predicted_score < minimum_score;
    if at_risk {
        let mut line = "predicted score ".to_owned();
        append_dec(&mut line, predicted_score as u64);
        line.append(" below minimum ");
        append_dec(&mut line, minimum_score as u64);
        line.append(" at ");
        append_dec(&mut line, days as u64);
        line.append("d");
        let ghost before = risks@;
        risks.push(line);
        assert(texts(risks@) =~= texts(before).push(below_minimum_risk(predicted_score, minimum_score, days)));
    }
    (risks, at_risk)
}

/// The warning a forecast carries when no readiness history was recorded.
pub open spec fn no_history_warning() -> Seq<char> {
    "no readiness history; forecast uses heuristic degradation only — run `spanda readiness --record`"@
}

/// The forecast's warnings: those of the history trend, then, when the
/// history holds no sample, the warning that only the heuristic was used.
pub fn forecast_warnings(trend_warnings: &Vec<String>, history_samples: usize) -> (r: Vec<String>)
    ensures
        texts(r@) == if history_samples == 0 {
            texts(trend_warnings@).push(no_history_warning())
        } else {
            texts(trend_warnings@)
        },
{
    let mut warnings = crate::text::copy_texts(trend_warnings);
    if history_samples == 0 {
        let ghost before = warnings@;
        warnings.push(
            "no readiness history; forecast uses heuristic degradation only — run `spanda readiness --record`".to_owned(),
        );
        proof {
            reveal_strlit(
                "no readiness history; forecast uses heuristic degradation only — run `spanda readiness --record`",
            );
        }
        assert(texts(warnings@) =~= texts(before).push(no_history_warning()));
    }
    warnings
}

} // verus!
