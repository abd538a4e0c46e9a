//! Per-entity recovery policies and their evaluation.
use vstd::prelude::*;
use crate::text::{texts, seq_contains, str_contains, str_eq, to_lowercase, unicode_lower};
use crate::recovery::entity::EntityKind;
use crate::recovery::types::{OrchestratorStrategy, RecoveryEscalationLevel};

verus! {

/// Escalation rule — when retries exhausted, escalate to next level.
#[derive(Debug, Clone)]
pub struct EscalationRule {
    pub from_level: RecoveryEscalationLevel,
    pub to_level: RecoveryEscalationLevel,
    pub after_retries: u32,
    pub strategy: OrchestratorStrategy,
}

/// Per-entity recovery policy from TOML or program declarations.
#[derive(Debug, Clone)]
pub struct EntityRecoveryPolicy {
    pub entity_id: String,
    pub entity_kind: Option<EntityKind>,
    pub priority: u32,
    pub timeout_secs: u64,
    pub retry_limit: u32,
    pub max_escalation_level: RecoveryEscalationLevel,
    pub escalation_rules: Vec<EscalationRule>,
    pub dependencies: Vec<String>,
    pub validation_rules: Vec<String>,
    pub requires_approval: bool,
    pub safety_constraints: Vec<String>,
    pub trust_requirements: Vec<String>,
    pub readiness_requirements: Vec<String>,
}

impl EntityRecoveryPolicy {
    /// The platform default policy: priority 50, five-minute timeout, three
    /// retries, escalation up to robot recovery, and health, readiness and
    /// trust validation.
    pub fn platform_default() -> (p: EntityRecoveryPolicy)
        ensures
            p.entity_id@ == Seq::<char>::empty(),
            p.entity_kind is None,
            p.priority == 50,
            p.timeout_secs == 300,
            p.retry_limit == 3,
            p.max_escalation_level == RecoveryEscalationLevel::Level4RecoverRobot,
            p.escalation_rules@.len() == 0,
            p.dependencies@.len() == 0,
            p.validation_rules@.len() == 3,
            p.validation_rules@[0]@ == "health"@,
            p.validation_rules@[1]@ == "readiness"@,
            p.validation_rules@[2]@ == "trust"@,
            !p.requires_approval,
            p.safety_constraints@.len() == 0,
            p.trust_requirements@.len() == 0,
            p.readiness_requirements@.len() == 0,
    {
        EntityRecoveryPolicy {
            entity_id: String::new(),
            entity_kind: None,
            priority: 50,
            timeout_secs: 300,
            retry_limit: 3,
            max_escalation_level: RecoveryEscalationLevel::Level4RecoverRobot,
            escalation_rules: Vec::new(),
            dependencies: Vec::new(),
            validation_rules: vec!["health".to_owned(), "readiness".to_owned(), "trust".to_owned()],
            requires_approval: false,
            safety_constraints: Vec::new(),
            trust_requirements: Vec::new(),
            readiness_requirements: Vec::new(),
        }
    }
}

/// Constraint `c` blocks a strategy labelled `label`.
pub open spec fn blocks(c: Seq<char>, label: Seq<char>) -> bool {
    seq_contains(label, unicode_lower(c))
}

pub open spec fn msg_level_exceeds(l: RecoveryEscalationLevel, m: RecoveryEscalationLevel) -> Seq<char> {
    "Escalation level "@ + l.spec_debug_name() + " exceeds policy maximum "@ + m.spec_debug_name()
}

pub open spec fn msg_strategy_exceeds(
    label: Seq<char>,
    s: RecoveryEscalationLevel,
    m: RecoveryEscalationLevel,
) -> Seq<char> {
    "Strategy '"@ + label + "' requires level "@ + s.spec_debug_name()
        + " which exceeds policy maximum "@ + m.spec_debug_name()
}

pub open spec fn msg_blocked(label: Seq<char>, c: Seq<char>) -> Seq<char> {
    "Strategy '"@ + label + "' blocked by safety constraint '"@ + c + "'"@
}

pub open spec fn msg_allowed(label: Seq<char>, l: RecoveryEscalationLevel) -> Seq<char> {
    "Policy allows strategy '"@ + label + "' at level "@ + l.spec_debug_name()
}

/// `cs[i]` is the first constraint that blocks a strategy labelled `label`.
pub open spec fn is_first_block(cs: Seq<String>, label: Seq<char>, i: int) -> bool {
    0 <= i < cs.len() && blocks(cs[i]@, label) && forall|j: int|
        0 <= j < i ==> !blocks(#[trigger] cs[j]@, label)
}

/// The verdict of `evaluate_policy` and its one message: allowed when neither
/// the requested level nor the strategy's own level exceeds the policy
/// maximum and no safety constraint (lowercased) occurs in the strategy's
/// label; the message explains the first reason found, in that order, or
/// the permission.
pub open spec fn spec_evaluate_policy(
    policy: EntityRecoveryPolicy,
    strategy: OrchestratorStrategy,
    level: RecoveryEscalationLevel,
) -> (bool, Seq<Seq<char>>) {
    let m = policy.max_escalation_level;
    let s = strategy.spec_default_level();
    let label = strategy.spec_label();
    let cs = policy.safety_constraints@;
    if level.rank() > m.rank() {
        (false, seq![msg_level_exceeds(level, m)])
    } else if s.rank() > m.rank() {
        (false, seq![msg_strategy_exceeds(label, s, m)])
    } else if exists|i: int| is_first_block(cs, label, i) {
        let i = choose|i: int| is_first_block(cs, label, i);
        (false, seq![msg_blocked(label, cs[i]@)])
    } else {
        (true, seq![msg_allowed(label, level)])
    }
}

proof fn lemma_first_block_unique(cs: Seq<String>, label: Seq<char>, i: int, k: int)
    requires
        is_first_block(cs, label, i),
        is_first_block(cs, label, k),
    ensures
        i == k,
{
    if i < k {
        assert(!blocks(cs[i]@, label));
    } else if k < i {
        assert(!blocks(cs[k]@, label));
    }
}

proof fn lemma_no_first_block(cs: Seq<String>, label: Seq<char>, k: int)
    requires
        0 <= k < cs.len(),
        blocks(cs[k]@, label),
    ensures
        exists|i: int| is_first_block(cs, label, i),
    decreases k,
{
    if forall|j: int| 0 <= j < k ==> !blocks(#[trigger] cs[j]@, label) {
        assert(is_first_block(cs, label, k));
    } else {
        let j = choose|j: int| 0 <= j < k && blocks(#[trigger] cs[j]@, label);
        lemma_no_first_block(cs, label, j);
    }
}

/// Evaluate whether recovery is allowed under entity policy constraints.
pub fn evaluate_policy(
    policy: &EntityRecoveryPolicy,
    strategy: &OrchestratorStrategy,
    escalation_level: RecoveryEscalationLevel,
) -> (r: (bool, Vec<String>))
    ensures
        (r.0, texts(r.1@)) == spec_evaluate_policy(*policy, *strategy, escalation_level),
{
    let mut messages: Vec<String> = Vec::new();
    let strategy_level = strategy.default_escalation_level();
    let max = policy.max_escalation_level;
    if escalation_level.as_u8() > max.as_u8() {
        let mut m = "Escalation level ".to_owned();
        m.append(escalation_level.debug_name());
        m.append(" exceeds policy maximum ");
        m.append(max.debug_name());
        messages.push(m);
        assert(texts(messages@) =~= seq![msg_level_exceeds(escalation_level, max)]);
        return (false, messages);
    }
    if strategy_level.as_u8() > max.as_u8() {
        let mut m = "Strategy '".to_owned();
        m.append(strategy.label());
        m.append("' requires level ");
        m.append(strategy_level.debug_name());
        m.append(" which exceeds policy maximum ");
        m.append(max.debug_name());
        messages.push(m);
        assert(texts(messages@) =~= seq![
            msg_strategy_exceeds(strategy.spec_label(), strategy_level, max),
        ]);
        return (false, messages);
    }
    let mut i: usize = 0;
    while i < policy.safety_constraints.len()
        invariant
            i <= policy.safety_constraints.len(),
            messages@.len() == 0,
            escalation_level.rank() <= policy.max_escalation_level.rank(),
            strategy.spec_default_level().rank() <= policy.max_escalation_level.rank(),
            forall|j: int|
                0 <= j < i ==> !blocks(
                    #[trigger] policy.safety_constraints@[j]@,
                    strategy.spec_label(),
                ),
        decreases policy.safety_constraints.len() - i,
    {
        let constraint = &policy.safety_constraints[i];
        let lowered = to_lowercase(constraint.as_str());
        if str_contains(strategy.label(), lowered.as_str()) {
            let mut m = "Strategy '".to_owned();
            m.append(strategy.label());
            m.append("' blocked by safety constraint '");
            m.append(constraint.as_str());
            m.append("'");
            messages.push(m);
            assert(texts(messages@) =~= seq![
                msg_blocked(strategy.spec_label(), constraint@),
            ]);
            proof {
                let cs = policy.safety_constraints@;
                let label = strategy.spec_label();
                assert(is_first_block(cs, label, i as int));
                let c = choose|c: int| is_first_block(cs, label, c);
                lemma_first_block_unique(cs, label, i as int, c);
            }

            return (false, messages);
        }
        i = i + 1;
    }
    proof {
        let cs = policy.safety_constraints@;
        let label = strategy.spec_label();
        if exists|k: int| is_first_block(cs, label, k) {
            let k = choose|k: int| is_first_block(cs, label, k);
            assert(!blocks(cs[k]@, label));
        }
    }
    let mut m = "Policy allows strategy '".to_owned();
    m.append(strategy.label());
    m.append("' at level ");
    m.append(escalation_level.debug_name());
    messages.push(m);
    assert(texts(messages@) =~= seq![
        msg_allowed(strategy.spec_label(), escalation_level),
    ]);
    (true, messages)
}

/// Policy `p` is the first in `ps` for `id`.
pub open spec fn is_first_policy_for(ps: Seq<EntityRecoveryPolicy>, id: Seq<char>, i: int) -> bool {
    0 <= i < ps.len() && ps[i].entity_id@ == id && forall|j: int|
        0 <= j < i ==> #[trigger] ps[j].entity_id@ != id
}

/// Find the (first) policy for a specific entity.
pub fn policy_for_entity<'a>(
    policies: &'a [EntityRecoveryPolicy],
    entity_id: &str,
) -> (r: Option<&'a EntityRecoveryPolicy>)
    ensures
        match r {
            Some(p) => exists|i: int| is_first_policy_for(policies@, entity_id@, i) && policies@[i] == *p,
            None => forall|j: int|
                0 <= j < policies@.len() ==> #[trigger] policies@[j].entity_id@ != entity_id@,
        },
{
    let mut i: usize = 0;
    while i < policies.len()
        invariant
            i <= policies.len(),
            forall|j: int| 0 <= j < i ==> #[trigger] policies@[j].entity_id@ != entity_id@,
        decreases policies.len() - i,
    {
        if str_eq(policies[i].entity_id.as_str(), entity_id) {
            assert(is_first_policy_for(policies@, entity_id@, i as int));
            return Some(&policies[i]);
        }
        i = i + 1;
    }
    None
}

/// Incidents and hazards get no recovery policy.
pub fn is_policy_eligible(kind: &EntityKind) -> (r: bool)
    ensures
        r == kind.spec_is_recoverable(),
{
    kind.is_recoverable()
}

/// Permission never exceeds the policy: an allowed recovery stays within the
/// policy's maximum level, both at the requested level and at the strategy's
/// own level, and no safety constraint blocks the strategy.
pub proof fn law_policy_allows_only_within_maximum(
    policy: EntityRecoveryPolicy,
    strategy: OrchestratorStrategy,
    level: RecoveryEscalationLevel,
)
    requires
        spec_evaluate_policy(policy, strategy, level).0,
    ensures
        level.rank() <= policy.max_escalation_level.rank(),
        strategy.spec_default_level().rank() <= policy.max_escalation_level.rank(),
        forall|i: int|
            0 <= i < policy.safety_constraints@.len() ==> !blocks(
                #[trigger] policy.safety_constraints@[i]@,
                strategy.spec_label(),
            ),
{
    let cs = policy.safety_constraints@;
    let label = strategy.spec_label();
    assert forall|i: int| 0 <= i < cs.len() implies !blocks(#[trigger] cs[i]@, label) by {
        if blocks(cs[i]@, label) {
            lemma_no_first_block(cs, label, i);
        }
    }
}

} // verus!
