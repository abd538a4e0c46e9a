//! Recovery validation: the post-recovery health, capability, hardware,
//! readiness, trust, security and mission gates.
use vstd::prelude::*;
use crate::text::{has_text, str_eq, texts};
use crate::readiness::gates::joined;
use crate::recovery::entity::EntityTrustStatus;

verus! {

/// What the safety validation of one recovery action found.
#[derive(Debug, Clone, Copy, PartialEq, Eq, Structural)]
pub struct ActionCheck {
    pub hardware_passed: bool,
    pub capability_passed: bool,
    pub safety_passed: bool,
    pub approved: bool,
}

/// Validation result for orchestrated recovery.
#[derive(Debug, Clone, PartialEq, Eq)]
pub struct OrchestratorValidationResult {
    pub passed: bool,
    pub health_verification: bool,
    pub capability_verification: bool,
    pub hardware_verification: bool,
    pub readiness_verification: bool,
    pub trust_verification: bool,
    pub security_verification: bool,
    pub mission_validation: bool,
    pub messages: Vec<String>,
}

/// Every action check satisfies `f`.
pub open spec fn all_checks(s: Seq<ActionCheck>, f: spec_fn(ActionCheck) -> bool) -> bool {
    forall|i: int| 0 <= i < s.len() ==> f(#[trigger] s[i])
}

/// Some action check satisfies `f`.
pub open spec fn any_check(s: Seq<ActionCheck>, f: spec_fn(ActionCheck) -> bool) -> bool {
    exists|i: int| 0 <= i < s.len() && f(#[trigger] s[i])
}

/// What each check of a recovery validation decides: health, capability,
/// hardware, readiness, trust, security and mission, in that order.
pub open spec fn gate_outcomes(
    actions: Seq<ActionCheck>,
    recovery_ready: bool,
    trust: Option<EntityTrustStatus>,
    rules: Seq<Seq<char>>,
    mission_failure: bool,
) -> (bool, bool, bool, bool, bool, bool, bool) {
    let hw = all_checks(actions, |a: ActionCheck| a.hardware_passed);
    (
        rules.len() == 0 || rules.contains("health"@) && hw,
        actions.len() == 0 || all_checks(actions, |a: ActionCheck| a.capability_passed),
        actions.len() == 0 || hw,
        recovery_ready,
        match trust {
            Some(t) => !(t is Untrusted || t is Compromised),
            None => true,
        },
        all_checks(actions, |a: ActionCheck| a.safety_passed),
        !mission_failure || any_check(actions, |a: ActionCheck| a.approved),
    )
}

/// The messages of a recovery validation: one per failed gate, or the
/// all-passed message.
pub open spec fn validation_messages(
    g: (bool, bool, bool, bool, bool, bool, bool),
    blockers: Seq<Seq<char>>,
) -> Seq<Seq<char>> {
    let all = g.0 && g.1 && g.2 && g.3 && g.4 && g.5 && g.6;
    (if g.0 { Seq::empty() } else { seq!["Health verification failed"@] })
        + (if g.1 { Seq::empty() } else { seq!["Capability verification failed"@] })
        + (if g.2 { Seq::empty() } else { seq!["Hardware verification failed"@] })
        + (if g.3 {
            Seq::empty()
        } else {
            seq!["Readiness verification failed: "@ + joined(blockers, ", "@)]
        })
        + (if g.4 { Seq::empty() } else { seq!["Trust verification failed — entity untrusted"@] })
        + (if g.5 { Seq::empty() } else { seq!["Security/safety validation failed"@] })
        + (if g.6 { Seq::empty() } else { seq!["Mission validation requires approval"@] })
        + (if all { seq!["All validation gates passed"@] } else { Seq::empty() })
}

fn contains_text(v: &Vec<String>, x: &str) -> (r: bool)
    ensures
        r == texts(v@).contains(x@),
{
    let mut i: usize = 0;
    while i < v.len()
        invariant
            i <= v.len(),
            forall|k: int| 0 <= k < i ==> (#[trigger] v@[k])@ != x@,
        decreases v.len() - i,
    {
        if str_eq(v[i].as_str(), x) {
            assert(texts(v@)[i as int] == x@);
            return true;
        }
        i = i + 1;
    }
    false
}

fn join_blockers(items: &Vec<String>) -> (r: String)
    ensures
        r@ == joined(texts(items@), ", "@),
{
    let ghost ts = texts(items@);
    let mut out = String::new();
    let mut i: usize = 0;
    while i < items.len()
        invariant
            i <= items.len(),
            ts == texts(items@),
            out@ == joined(ts.take(i as int), ", "@),
        decreases items.len() - i,
    {
        assert(ts.take(i + 1).drop_last() =~= ts.take(i as int));
        if i > 0 {
            out.append(", ");
        }
        out.append(items[i].as_str());
        proof {
            if i == 0 {
                assert(ts.take(1)[0] == ts[0]);
            }
        }
        i = i + 1;
    }
    assert(ts.take(items.len() as int) =~= ts);
    out
}

fn check_actions(actions: &Vec<ActionCheck>) -> (r: (bool, bool, bool, bool))
    ensures
        r.0 == all_checks(actions@, |a: ActionCheck| a.hardware_passed),
        r.1 == all_checks(actions@, |a: ActionCheck| a.capability_passed),
        r.2 == all_checks(actions@, |a: ActionCheck| a.safety_passed),
        r.3 == any_check(actions@, |a: ActionCheck| a.approved),
{
    let mut hw = true;
    let mut cap = true;
    let mut safe = true;
    let mut approved = false;
    let mut i: usize = 0;
    while i < actions.len()
        invariant
            i <= actions.len(),
            hw == forall|k: int| 0 <= k < i ==> (#[trigger] actions@[k]).hardware_passed,
            cap == forall|k: int| 0 <= k < i ==> (#[trigger] actions@[k]).capability_passed,
            safe == forall|k: int| 0 <= k < i ==> (#[trigger] actions@[k]).safety_passed,
            approved == exists|k: int| 0 <= k < i && (#[trigger] actions@[k]).approved,
        decreases actions.len() - i,
    {
        let a = actions[i];
        hw = hw && a.hardware_passed;
        cap = cap && a.capability_passed;
        safe = safe && a.safety_passed;
        approved = approved || a.approved;
        i = i + 1;
    }
    (hw, cap, safe, approved)
}

fn push_text(v: &mut Vec<String>, s: String)
    ensures
        texts(final(v)@) == texts(old(v)@).push(s@),
{
    let ghost before = texts(v@);
    v.push(s);
    assert(texts(v@) =~= before.push(s@));
}

#[verifier::spinoff_prover]
#[verifier::rlimit(40)]
fn gate_messages(g: (bool, bool, bool, bool, bool, bool, bool), blockers: &Vec<String>) -> (r: Vec<String>)
    ensures
        texts(r@) == validation_messages(g, texts(blockers@)),
{
    let mut m: Vec<String> = Vec::new();
    let ghost t0 = texts(m@);
    if !g.0 {
        push_text(&mut m, "Health verification failed".to_owned());
    }
    let ghost t1 = texts(m@);
    assert(t1 =~= t0 + (if g.0 { Seq::empty() } else { seq!["Health verification failed"@] }));
    if !g.1 {
        push_text(&mut m, "Capability verification failed".to_owned());
    }
    let ghost t2 = texts(m@);
    assert(t2 =~= t1 + (if g.1 { Seq::empty() } else { seq!["Capability verification failed"@] }));
    if !g.2 {
        push_text(&mut m, "Hardware verification failed".to_owned());
    }
    let ghost t3 = texts(m@);
    assert(t3 =~= t2 + (if g.2 { Seq::empty() } else { seq!["Hardware verification failed"@] }));
    if !g.3 {
        let mut x = "Readiness verification failed: ".to_owned();
        let j = join_blockers(blockers);
        x.append(j.as_str());
        push_text(&mut m, x);
    }
    let ghost t4 = texts(m@);
    assert(t4 =~= t3 + (if g.3 {
        Seq::empty()
    } else {
        seq!["Readiness verification failed: "@ + joined(texts(blockers@), ", "@)]
    }));
    if !g.4 {
        push_text(&mut m, "Trust verification failed — entity untrusted".to_owned());
    }
    let ghost t5 = texts(m@);
    assert(t5 =~= t4 + (if g.4 { Seq::empty() } else { seq!["Trust verification failed — entity untrusted"@] }));
    if !g.5 {
        push_text(&mut m, "Security/safety validation failed".to_owned());
    }
    let ghost t6 = texts(m@);
    assert(t6 =~= t5 + (if g.5 { Seq::empty() } else { seq!["Security/safety validation failed"@] }));
    if !g.6 {
        push_text(&mut m, "Mission validation requires approval".to_owned());
    }
    let ghost t7 = texts(m@);
    assert(t7 =~= t6 + (if g.6 { Seq::empty() } else { seq!["Mission validation requires approval"@] }));
    let all = g.0 && g.1 && g.2 && g.3 && g.4 && g.5 && g.6;
    if all {
        push_text(&mut m, "All validation gates passed".to_owned());
    }
    assert(texts(m@) =~= t7 + (if all { seq!["All validation gates passed"@] } else { Seq::empty() }));
    m
}

/// Validate a recovery through all gates, from the safety validation of its
/// actions, its readiness and blockers, the entity's trust (none when the
/// entity is unknown), the required validation rules and whether the
/// failure is a mission failure.
pub fn validate_recovery(
    actions: &Vec<ActionCheck>,
    recovery_ready: bool,
    blockers: &Vec<String>,
    entity_trust: Option<EntityTrustStatus>,
    validation_rules: &Vec<String>,
    mission_failure: bool,
) -> (r: OrchestratorValidationResult)
    ensures
        ({
            let g = gate_outcomes(actions@, recovery_ready, entity_trust, texts(validation_rules@), mission_failure);
            &&& r.health_verification == g.0
            &&& r.capability_verification == g.1
            &&& r.hardware_verification == g.2
            &&& r.readiness_verification == g.3
            &&& r.trust_verification == g.4
            &&& r.security_verification == g.5
            &&& r.mission_validation == g.6
            &&& r.passed == (g.0 && g.1 && g.2 && g.3 && g.4 && g.5 && g.6)
            &&& texts(r.messages@) == validation_messages(g, texts(blockers@))
        }),
{
    let (hw, cap, safe, approved) = check_actions(actions);
    let health = validation_rules.len() == 0 || contains_text(validation_rules, "health") && hw;
    let capability = actions.len() == 0 || cap;
    let hardware = actions.len() == 0 || hw;
    let readiness = recovery_ready;
    let trust = match entity_trust {
        Some(EntityTrustStatus::Untrusted) | Some(EntityTrustStatus::Compromised) => false,
        _ => true,
    };
    let security = safe;
    let mission = !mission_failure || approved;
    let passed = health && capability && hardware && readiness && trust && security && mission;
    proof {
        reveal_strlit("health");
    }
    let messages = gate_messages((health, capability, hardware, readiness, trust, security, mission), blockers);
    OrchestratorValidationResult {
        passed,
        health_verification: health,
        capability_verification: capability,
        hardware_verification: hardware,
        readiness_verification: readiness,
        trust_verification: trust,
        security_verification: security,
        mission_validation: mission,
        messages,
    }
}

/// A validation passes exactly when its only message is the all-passed one.
pub proof fn law_passed_iff_only_success_message(
    g: (bool, bool, bool, bool, bool, bool, bool),
    blockers: Seq<Seq<char>>,
)
    ensures
        (g.0 && g.1 && g.2 && g.3 && g.4 && g.5 && g.6) <==> validation_messages(g, blockers) == seq![
            "All validation gates passed"@,
        ],
{
    let m = validation_messages(g, blockers);
    if g.0 && g.1 && g.2 && g.3 && g.4 && g.5 && g.6 {
        assert(m =~= seq!["All validation gates passed"@]);
    } else {
        reveal_strlit("All validation gates passed");
        reveal_strlit("Health verification failed");
        reveal_strlit("Capability verification failed");
        reveal_strlit("Hardware verification failed");
        reveal_strlit("Readiness verification failed: ");
        reveal_strlit("Trust verification failed — entity untrusted");
        reveal_strlit("Security/safety validation failed");
        reveal_strlit("Mission validation requires approval");
        assert(m.len() >= 1);
        if m == seq!["All validation gates passed"@] {
            assert(m[0] == "All validation gates passed"@);
            assert(m[0][0] == 'A');
        }
    }
}

} // verus!
