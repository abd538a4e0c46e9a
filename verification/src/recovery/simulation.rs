//! Recovery simulation: which failures a run plans for, which playbook and
//! strategies each plan follows, and whether the run passed.
use vstd::prelude::*;
use crate::text::{concat2, concat3, opt_text, push_char, texts, chars_of, str_eq};
use crate::recovery::entity::EntityRegistry;
use crate::recovery::playbook::{find_playbook, first_named, has_playbook, match_playbooks, matching,
    RecoveryPlaybook};
use crate::recovery::plugin::{has_strategy, RecoveryPluginRegistry};
use crate::recovery::types::{OrchestratorStrategy, RecoveryEscalationLevel};
use crate::recovery::learning::RecoveryOutcomeStatus;

verus! {

/// Simulation mode for recovery operations.
#[derive(Debug, Clone, Copy, PartialEq, Eq, Structural)]
pub enum RecoverySimulationMode {
    Plan,
    Simulate,
    DryRun,
    Validate,
}

impl RecoverySimulationMode {
    /// Whether a run in this mode validates its plans and records evidence:
    /// every mode but planning alone.
    pub fn records_evidence(&self) -> (r: bool)
        ensures
            r == !(*self is Plan),
    {
        match self {
            RecoverySimulationMode::Plan => false,
            _ => true,
        }
    }
}

/// Input for orchestrator recovery operations.
#[derive(Debug, Clone, PartialEq, Eq)]
pub struct RecoveryOrchestratorRequest {
    pub entity_id: Option<String>,
    pub failure: Option<String>,
    pub mode: RecoverySimulationMode,
    pub playbook: Option<String>,
    pub max_escalation_level: Option<RecoveryEscalationLevel>,
    pub force_execute: bool,
}

impl Default for RecoveryOrchestratorRequest {
    fn default() -> (r: RecoveryOrchestratorRequest)
        ensures
            r.entity_id is None,
            r.failure is None,
            r.mode == RecoverySimulationMode::Plan,
            r.playbook is None,
            r.max_escalation_level is None,
            !r.force_execute,
    {
        RecoveryOrchestratorRequest {
            entity_id: None,
            failure: None,
            mode: RecoverySimulationMode::Plan,
            playbook: None,
            max_escalation_level: None,
            force_execute: false,
        }
    }
}

/// Event in a recovery timeline.
#[derive(Debug, Clone, PartialEq, Eq)]
pub struct RecoveryTimelineEvent {
    pub phase: String,
    pub description: String,
    pub timestamp: String,
    pub duration_ms: u64,
}

/// The (entity, failure) pairs a run plans for: the requested failure (on
/// the requested entity, or `system`); else the requested entity's
/// degradation; else a health check of each of the first five entities.
pub open spec fn failure_targets_of(
    entity_id: Option<Seq<char>>,
    failure: Option<Seq<char>>,
    registry: EntityRegistry,
) -> Seq<(Seq<char>, Seq<char>)> {
    match failure {
        Some(f) => seq![(
            match entity_id {
                Some(e) => e,
                None => "system"@,
            },
            f,
        )],
        None => match entity_id {
            Some(e) => seq![(e, e + "_degraded"@)],
            None => {
                let n = if registry.entities@.len() < 5 { registry.entities@.len() } else { 5 };
                Seq::new(n, |i: int| (registry.entities@[i].id@, registry.entities@[i].id@ + "_health_check"@))
            },
        },
    }
}

/// The (entity, failure) pairs a run plans for.
pub fn failure_targets(request: &RecoveryOrchestratorRequest, registry: &EntityRegistry) -> (r: Vec<(String, String)>)
    ensures
        r@.map_values(|p: (String, String)| (p.0@, p.1@)) == failure_targets_of(
            opt_text(request.entity_id),
            opt_text(request.failure),
            *registry,
        ),
{
    match &request.failure {
        Some(f) => {
            let e = match &request.entity_id {
                Some(e) => e.clone(),
                None => "system".to_owned(),
            };
            let r = vec![(e, f.clone())];
            assert(r@.map_values(|p: (String, String)| (p.0@, p.1@)) =~= failure_targets_of(
                opt_text(request.entity_id),
                opt_text(request.failure),
                *registry,
            ));
            r
        },
        None => match &request.entity_id {
            Some(e) => {
                let r = vec![(e.clone(), concat2(e.as_str(), "_degraded"))];
                assert(r@.map_values(|p: (String, String)| (p.0@, p.1@)) =~= failure_targets_of(
                    opt_text(request.entity_id),
                    opt_text(request.failure),
                    *registry,
                ));
                r
            },
            None => {
                let es = registry.list();
                let n: usize = if es.len() < 5 { es.len() } else { 5 };
                let mut r: Vec<(String, String)> = Vec::new();
                let mut i: usize = 0;
                while i < n
                    invariant
                        i <= n,
                        n <= es.len(),
                        es@ == registry.entities@,
                        r@.len() == i,
                        forall|k: int|
                            0 <= k < i ==> (#[trigger] r@[k]).0@ == es@[k].id@ && r@[k].1@ == es@[k].id@
                                + "_health_check"@,
                    decreases n - i,
                {
                    let id = es[i].id.as_str();
                    r.push((id.to_owned(), concat2(id, "_health_check")));
                    i = i + 1;
                }
                assert(r@.map_values(|p: (String, String)| (p.0@, p.1@)) =~= failure_targets_of(
                    opt_text(request.entity_id),
                    opt_text(request.failure),
                    *registry,
                ));
                r
            },
        },
    }
}

/// A text with every space replaced by `_`.
pub open spec fn underscored(s: Seq<char>) -> Seq<char> {
    Seq::new(s.len(), |i: int| if s[i] == ' ' { '_' } else { s[i] })
}

/// The identifier of a plan: `plan-<entity>-<failure with spaces as _>`.
pub fn plan_id(entity_id: &str, failure: &str) -> (r: String)
    ensures
        r@ == "plan-"@ + entity_id@ + "-"@ + underscored(failure@),
{
    let mut r = concat3("plan-", entity_id, "-");
    let ghost start = r@;
    let cs = chars_of(failure);
    let mut i: usize = 0;
    while i < cs.len()
        invariant
            i <= cs.len(),
            cs@ == failure@,
            r@ == start + underscored(failure@).take(i as int),
        decreases cs.len() - i,
    {
        let c = if cs[i] == ' ' { '_' } else { cs[i] };
        push_char(&mut r, c);
        assert(underscored(failure@).take(i + 1) =~= underscored(failure@).take(i as int).push(c));
        i = i + 1;
    }
    assert(underscored(failure@).take(cs.len() as int) =~= underscored(failure@));
    r
}

/// The playbook a plan follows: the requested one by name, else the first
/// whose trigger answers the failure.
pub open spec fn chosen_playbook(
    playbooks: Seq<RecoveryPlaybook>,
    requested: Option<Seq<char>>,
    failure: Seq<char>,
) -> Option<RecoveryPlaybook> {
    match requested {
        Some(name) => if has_playbook(playbooks, name) {
            Some(playbooks[choose|i: int| first_named(playbooks, name, i)])
        } else {
            None
        },
        None => if matching(playbooks, failure).len() > 0 {
            Some(matching(playbooks, failure)[0])
        } else {
            None
        },
    }
}

/// The playbook a plan follows and the strategies it runs: the chosen
/// playbook's step strategies, or else the recommended strategy (as a
/// plugin's custom strategy when a plugin registers one of that label).
pub open spec fn strategies_ok(
    playbooks: Seq<RecoveryPlaybook>,
    requested: Option<&str>,
    failure: Seq<char>,
    recommended: OrchestratorStrategy,
    plugins: Option<&RecoveryPluginRegistry>,
    name: Option<String>,
    strategies: Seq<OrchestratorStrategy>,
) -> bool {
    match chosen_playbook(playbooks, match requested { Some(n) => Some(n@), None => None }, failure) {
        Some(p) => opt_text(name) == Some(p.name@) && strategies == p.steps@.map_values(
            |s: crate::recovery::playbook::PlaybookStep| s.strategy,
        ),
        None => name is None && strategies.len() == 1 && match plugins {
            Some(reg) => if has_strategy(reg@, recommended.spec_label()) {
                strategies[0] matches OrchestratorStrategy::Custom(n) && n@ == recommended.spec_label()
            } else {
                strategies[0] == recommended
            },
            None => strategies[0] == recommended,
        },
    }
}

/// The playbook a plan follows and the strategies it runs: the playbook's
/// step strategies, or else the recommended strategy (as a plugin's custom
/// strategy when a plugin registers one of that label).
pub fn plan_strategies(
    playbooks: &Vec<RecoveryPlaybook>,
    requested: Option<&str>,
    failure: &str,
    recommended: &OrchestratorStrategy,
    plugins: Option<&RecoveryPluginRegistry>,
) -> (r: (Option<String>, Vec<OrchestratorStrategy>))
    ensures
        strategies_ok(playbooks@, requested, failure@, *recommended, plugins, r.0, r.1@),
{
    let chosen: Option<&RecoveryPlaybook> = match requested {
        Some(name) => find_playbook(playbooks.as_slice(), name),
        None => {
            let m = match_playbooks(playbooks.as_slice(), failure);
            if m.len() > 0 {
                Some(m[0])
            } else {
                None
            }
        },
    };
    proof {
        match requested {
            Some(name) => {
                if has_playbook(playbooks@, name@) {
                    let i = choose|i: int| first_named(playbooks@, name@, i);
                    if let Some(p) = chosen {
                        let k = choose|k: int| first_named(playbooks@, name@, k) && *p == playbooks@[k];
                        if i < k {
                            assert(playbooks@[i].name@ != name@);
                        } else if k < i {
                            assert(playbooks@[k].name@ != name@);
                        }
                    }
                }
            },
            None => {},
        }
    }
    match chosen {
        Some(p) => {
            let mut strategies: Vec<OrchestratorStrategy> = Vec::new();
            let mut i: usize = 0;
            while i < p.steps.len()
                invariant
                    i <= p.steps.len(),
                    strategies@ == p.steps@.take(i as int).map_values(
                        |s: crate::recovery::playbook::PlaybookStep| s.strategy,
                    ),
                decreases p.steps.len() - i,
            {
                strategies.push(p.steps[i].strategy.duplicate());
                assert(p.steps@.take(i + 1).map_values(|s: crate::recovery::playbook::PlaybookStep| s.strategy)
                    =~= p.steps@.take(i as int).map_values(|s: crate::recovery::playbook::PlaybookStep| s.strategy).push(
                    p.steps@[i as int].strategy,
                ));
                i = i + 1;
            }
            assert(p.steps@.take(p.steps.len() as int) =~= p.steps@);
            (Some(p.name.clone()), strategies)
        },
        None => {
            let s = match plugins {
                Some(reg) => match reg.resolve_strategy(recommended.label()) {
                    Some(custom) => custom,
                    None => recommended.duplicate(),
                },
                None => recommended.duplicate(),
            };
            (None, vec![s])
        },
    }
}

/// A run passes when every plan can recover safely and no recorded
/// recovery failed.
pub fn simulation_passed(decisions: &Vec<(bool, bool)>, outcomes: &Vec<RecoveryOutcomeStatus>) -> (r: bool)
    ensures
        r == ((forall|k: int| 0 <= k < decisions@.len() ==> (#[trigger] decisions@[k]).0 && decisions@[k].1)
            && forall|k: int| 0 <= k < outcomes@.len() ==> (#[trigger] outcomes@[k]) != RecoveryOutcomeStatus::Failed),
{
    let mut ok = true;
    let mut i: usize = 0;
    while i < decisions.len()
        invariant
            i <= decisions.len(),
            ok == forall|k: int| 0 <= k < i ==> (#[trigger] decisions@[k]).0 && decisions@[k].1,
        decreases decisions.len() - i,
    {
        let (can, safe) = decisions[i];
        ok = ok && can && safe;
        i = i + 1;
    }
    let mut j: usize = 0;
    let mut none_failed = true;
    while j < outcomes.len()
        invariant
            j <= outcomes.len(),
            none_failed == forall|k: int| 0 <= k < j ==> (#[trigger] outcomes@[k]) != RecoveryOutcomeStatus::Failed,
        decreases outcomes.len() - j,
    {
        let failed = match outcomes[j] {
            RecoveryOutcomeStatus::Failed => true,
            _ => false,
        };
        none_failed = none_failed && !failed;
        j = j + 1;
    }
    ok && none_failed
}

} // verus!
