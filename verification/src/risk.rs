//! Mission risk assessment: weighted risk factors, risk tiers and the
//! composition of readiness, coverage, trust, contract, what-if, hardware
//! and fleet results into one deployment risk score.
use vstd::prelude::*;
use crate::text::{append_dec, bool_str, bool_text, dec_text, has_text, insert_sorted_unique,
    sorted_strict, texts};

verus! {

/// Output format for mission risk reports.
#[derive(Debug, Clone, Copy, PartialEq, Eq, Structural)]
pub enum MissionRiskFormat {
    Text,
    Json,
}

impl Default for MissionRiskFormat {
    fn default() -> (r: MissionRiskFormat)
        ensures
            r == MissionRiskFormat::Text,
    {
        MissionRiskFormat::Text
    }
}

/// Individual risk contributor with weight and local score.
#[derive(Debug, Clone, PartialEq, Eq)]
pub struct MissionRiskFactor {
    pub name: String,
    pub weight: u32,
    pub score: u32,
    pub detail: String,
}

/// Composite mission risk score (0–100, higher = more risk).
#[derive(Debug, Clone, PartialEq, Eq)]
pub struct MissionRiskScore {
    pub total: u32,
    pub tier: String,
}

/// Full mission deployment risk assessment.
#[derive(Debug, Clone, PartialEq, Eq)]
pub struct MissionRiskAssessment {
    pub program: String,
    pub score: MissionRiskScore,
    pub factors: Vec<MissionRiskFactor>,
    pub mitigations: Vec<String>,
}

/// The view of a factor: name, weight, score and detail.
pub open spec fn factor_view(f: MissionRiskFactor) -> (Seq<char>, u32, u32, Seq<char>) {
    (f.name@, f.weight, f.score, f.detail@)
}

/// The views of a list of factors.
pub open spec fn factor_views(s: Seq<MissionRiskFactor>) -> Seq<(Seq<char>, u32, u32, Seq<char>)> {
    s.map_values(|f: MissionRiskFactor| factor_view(f))
}

/// A factor with its score capped at 100.
pub fn factor(name: &str, weight: u32, score: u32, detail: String) -> (r: MissionRiskFactor)
    ensures
        factor_view(r) == (name@, weight, if score > 100 { 100u32 } else { score }, detail@),
{
    MissionRiskFactor {
        name: name.to_owned(),
        weight,
        score: if score > 100 { 100 } else { score },
        detail,
    }
}

/// The smaller of two naturals.
pub open spec fn min_nat(a: nat, b: nat) -> nat {
    if a <= b {
        a
    } else {
        b
    }
}

/// The sum of each weighted factor's score times its weight (each product
/// capped at `u32::MAX`).
pub open spec fn weighted_sum(fs: Seq<(Seq<char>, u32, u32, Seq<char>)>) -> nat
    decreases fs.len(),
{
    if fs.len() == 0 {
        0
    } else {
        let f = fs.last();
        weighted_sum(fs.drop_last()) + if f.1 > 0 {
            min_nat((f.2 * f.1) as nat, u32::MAX as nat)
        } else {
            0
        }
    }
}

/// The sum of the factors' weights.
pub open spec fn weight_total(fs: Seq<(Seq<char>, u32, u32, Seq<char>)>) -> nat
    decreases fs.len(),
{
    if fs.len() == 0 {
        0
    } else {
        weight_total(fs.drop_last()) + fs.last().1 as nat
    }
}

/// The weighted risk: the weighted mean of the scores, capped at 100, or 0
/// when no factor carries weight.
pub open spec fn spec_weighted_risk(fs: Seq<(Seq<char>, u32, u32, Seq<char>)>) -> nat {
    if weight_total(fs) == 0 {
        0
    } else {
        min_nat(weighted_sum(fs) / weight_total(fs), 100)
    }
}

/// The weighted risk of the factors.
pub fn weighted_risk(factors: &Vec<MissionRiskFactor>) -> (r: u32)
    requires
        weighted_sum(factor_views(factors@)) <= u32::MAX,
        weight_total(factor_views(factors@)) <= u32::MAX,
    ensures
        r == spec_weighted_risk(factor_views(factors@)),
{
    let ghost vs = factor_views(factors@);
    let mut sum: u32 = 0;
    let mut total: u32 = 0;
    let mut i: usize = 0;
    assert(vs.take(0) =~= Seq::<(Seq<char>, u32, u32, Seq<char>)>::empty());
    while i < factors.len()
        invariant
            i <= factors.len(),
            vs == factor_views(factors@),
            weighted_sum(vs) <= u32::MAX,
            weight_total(vs) <= u32::MAX,
            sum == weighted_sum(vs.take(i as int)),
            total == weight_total(vs.take(i as int)),
        decreases factors.len() - i,
    {
        assert(vs.take(i + 1).drop_last() =~= vs.take(i as int));
        proof {
            lemma_sums_grow(vs, i + 1);
        }
        let f = &factors[i];
        if f.weight > 0 {
            let product: u32 = match f.score.checked_mul(f.weight) {
                Some(p) => p,
                None => u32::MAX,
            };
            sum = sum + product;
        }
        total = total + f.weight;
        i = i + 1;
    }
    assert(vs.take(factors.len() as int) =~= vs);
    if total == 0 {
        0
    } else {
        let q = sum / total;
        if q > 100 {
            100
        } else {
            q
        }
    }
}

proof fn lemma_sums_grow(fs: Seq<(Seq<char>, u32, u32, Seq<char>)>, k: int)
    requires
        0 <= k <= fs.len(),
    ensures
        weighted_sum(fs.take(k)) <= weighted_sum(fs),
        weight_total(fs.take(k)) <= weight_total(fs),
    decreases fs.len() - k,
{
    if k < fs.len() {
        lemma_sums_grow(fs, k + 1);
        assert(fs.take(k + 1).drop_last() =~= fs.take(k));
    } else {
        assert(fs.take(k) =~= fs);
    }
}

proof fn lemma_weighted_sum_bounded(fs: Seq<(Seq<char>, u32, u32, Seq<char>)>, m: nat)
    requires
        forall|i: int| 0 <= i < fs.len() ==> (#[trigger] fs[i]).2 <= m,
    ensures
        weighted_sum(fs) <= m * weight_total(fs),
    decreases fs.len(),
{
    if fs.len() > 0 {
        let t = fs.drop_last();
        assert forall|i: int| 0 <= i < t.len() implies (#[trigger] t[i]).2 <= m by {
            assert(t[i] == fs[i]);
        }
        lemma_weighted_sum_bounded(t, m);
        let f = fs.last();
        assert(f.2 <= m) by {
            assert(fs[fs.len() - 1] == f);
        }
        assert(f.2 * f.1 <= m * f.1) by (nonlinear_arith)
            requires
                f.2 <= m,
        ;
        assert(m * weight_total(t) + m * f.1 == m * (weight_total(t) + f.1)) by (nonlinear_arith);
    }
}

/// The weighted risk never exceeds 100, nor the largest factor score.
pub proof fn law_weighted_risk_bounded(fs: Seq<(Seq<char>, u32, u32, Seq<char>)>, m: nat)
    requires
        forall|i: int| 0 <= i < fs.len() ==> (#[trigger] fs[i]).2 <= m,
    ensures
        spec_weighted_risk(fs) <= 100,
        spec_weighted_risk(fs) <= m,
{
    lemma_weighted_sum_bounded(fs, m);
    let s = weighted_sum(fs);
    let t = weight_total(fs);
    if t > 0 {
        assert(s / t <= m) by (nonlinear_arith)
            requires
                s <= m * t,
                t > 0,
        ;
    }
}

/// The risk tier of a score: low up to 25, medium up to 50, high up to 75,
/// critical above.
pub open spec fn spec_risk_tier(total: nat) -> Seq<char> {
    if total <= 25 {
        "low"@
    } else if total <= 50 {
        "medium"@
    } else if total <= 75 {
        "high"@
    } else {
        "critical"@
    }
}

/// Position of a tier, from low (0) to critical (3).
pub open spec fn tier_rank(total: nat) -> nat {
    if total <= 25 {
        0
    } else if total <= 50 {
        1
    } else if total <= 75 {
        2
    } else {
        3
    }
}

/// The risk tier of a score.
pub fn risk_tier(total: u32) -> (r: String)
    ensures
        r@ == spec_risk_tier(total as nat),
{
    if total <= 25 {
        "low".to_owned()
    } else if total <= 50 {
        "medium".to_owned()
    } else if total <= 75 {
        "high".to_owned()
    } else {
        "critical".to_owned()
    }
}

/// A higher score never has a lower tier.
pub proof fn law_risk_tier_monotone(a: nat, b: nat)
    requires
        a <= b,
    ensures
        tier_rank(a) <= tier_rank(b),
{
}

/// What the composition of a mission's risk reads from the engines' results.
#[derive(Debug, Clone)]
pub struct MissionRiskInputs {
    pub readiness_total: u32,
    pub readiness_maximum: u32,
    /// The readiness score as a rounded percentage of its maximum.
    pub readiness_pct: u32,
    pub mission_ready: bool,
    pub safety_coverage_pct: u32,
    pub safety_scenarios: u64,
    pub safety_recommendations: Vec<String>,
    pub recovery_coverage_pct: u32,
    pub recovery_uncovered: u64,
    pub recovery_recommendations: Vec<String>,
    pub trust_score: u32,
    pub trust_tier: String,
    pub contract_passed: bool,
    pub contract_checks_passed: Vec<bool>,
    pub contract_issues: Vec<String>,
    /// The share of high-risk what-if scenarios as a rounded percentage.
    pub what_if_risk: u32,
    pub what_if_high_risk: u64,
    pub what_if_total: u64,
    pub hardware_compatible: bool,
    pub hardware_errors: u64,
    pub has_fleet: bool,
}

/// 100 minus a percentage capped at 100.
pub open spec fn inverse_pct(p: u32) -> u32 {
    (100 - min_nat(p as nat, 100)) as u32
}

/// The number of failed contract checks.
pub open spec fn failed_checks(c: Seq<bool>) -> nat
    decreases c.len(),
{
    if c.len() == 0 {
        0
    } else {
        failed_checks(c.drop_last()) + if c.last() {
            0nat
        } else {
            1nat
        }
    }
}

/// The risk contributed by readiness.
pub open spec fn readiness_risk(i: MissionRiskInputs) -> u32 {
    if i.mission_ready {
        ((100 - i.readiness_pct) / 2) as u32
    } else {
        (100 - i.readiness_pct) as u32
    }
}

/// The risk contributed by the mission contract.
pub open spec fn contract_risk(i: MissionRiskInputs) -> u32 {
    if !i.contract_passed {
        85
    } else {
        min_nat(failed_checks(i.contract_checks_passed@) * 20, 100) as u32
    }
}

/// The risk contributed by hardware incompatibility.
pub open spec fn hardware_risk(i: MissionRiskInputs) -> u32 {
    if i.hardware_compatible {
        0
    } else {
        min_nat((i.hardware_errors * 12) as nat, 100) as u32
    }
}

/// The risk contributed by fleet coordination.
pub open spec fn fleet_risk(i: MissionRiskInputs) -> u32 {
    if i.has_fleet && i.recovery_uncovered > 0 {
        40
    } else if i.has_fleet {
        15
    } else {
        0
    }
}

/// A score capped at 100.
pub open spec fn cap100(x: u32) -> u32 {
    if x > 100 {
        100
    } else {
        x
    }
}

/// The detail texts of the factors.
pub open spec fn readiness_detail(i: MissionRiskInputs) -> Seq<char> {
    "mission_ready="@ + bool_text(i.mission_ready) + ", score "@ + dec_text(
        i.readiness_total as nat,
    ) + "/"@ + dec_text(i.readiness_maximum as nat)
}

pub open spec fn safety_detail(i: MissionRiskInputs) -> Seq<char> {
    "coverage "@ + dec_text(i.safety_coverage_pct as nat) + "%, "@ + dec_text(
        i.safety_scenarios as nat,
    ) + " scenarios"@
}

pub open spec fn recovery_detail(i: MissionRiskInputs) -> Seq<char> {
    "coverage "@ + dec_text(i.recovery_coverage_pct as nat) + "%, "@ + dec_text(
        i.recovery_uncovered as nat,
    ) + " uncovered"@
}

pub open spec fn trust_detail(i: MissionRiskInputs) -> Seq<char> {
    "composite trust "@ + dec_text(i.trust_score as nat) + "/100 tier="@ + i.trust_tier@
}

pub open spec fn contract_detail(i: MissionRiskInputs) -> Seq<char> {
    "passed="@ + bool_text(i.contract_passed) + ", "@ + dec_text(
        i.contract_checks_passed@.len(),
    ) + " checks"@
}

pub open spec fn what_if_detail(i: MissionRiskInputs) -> Seq<char> {
    dec_text(i.what_if_high_risk as nat) + " high-risk of "@ + dec_text(
        i.what_if_total as nat,
    ) + " scenarios"@
}

/// The factors of a mission's risk, in order.
pub open spec fn risk_factor_views(i: MissionRiskInputs) -> Seq<(Seq<char>, u32, u32, Seq<char>)> {
    fixed_factor_views(i) + hardware_factor_views(i) + fleet_factor_views(i)
}

/// The six weighted factors of a mission's risk.
pub open spec fn fixed_factor_views(i: MissionRiskInputs) -> Seq<(Seq<char>, u32, u32, Seq<char>)> {
    seq![
        (
            "readiness"@,
            25u32,
            cap100(readiness_risk(i)),
            readiness_detail(i),
        ),
        (
            "safety_coverage"@,
            20u32,
            cap100(inverse_pct(i.safety_coverage_pct)),
            safety_detail(i),
        ),
        (
            "recovery_coverage"@,
            20u32,
            cap100(inverse_pct(i.recovery_coverage_pct)),
            recovery_detail(i),
        ),
        (
            "trust"@,
            15u32,
            cap100(inverse_pct(i.trust_score)),
            trust_detail(i),
        ),
        (
            "mission_contract"@,
            10u32,
            cap100(contract_risk(i)),
            contract_detail(i),
        ),
        (
            "what_if_scenarios"@,
            10u32,
            cap100(i.what_if_risk),
            what_if_detail(i),
        ),
    ]
}

/// The hardware-margin factor, when hardware adds risk.
pub open spec fn hardware_factor_views(i: MissionRiskInputs) -> Seq<(Seq<char>, u32, u32, Seq<char>)> {
    if hardware_risk(i) > 0 {
        seq![
            (
                "hardware_margin"@,
                0u32,
                cap100(hardware_risk(i)),
                dec_text(i.hardware_errors as nat) + " compatibility issue(s)"@,
            ),
        ]
    } else {
        Seq::empty()
    }
}

/// The fleet-dependency factor, when the fleet adds risk.
pub open spec fn fleet_factor_views(i: MissionRiskInputs) -> Seq<(Seq<char>, u32, u32, Seq<char>)> {
    if fleet_risk(i) > 0 {
        seq![
            (
                "fleet_dependency"@,
                0u32,
                cap100(fleet_risk(i)),
                "fleet declared; recovery gaps increase coordination risk"@,
            ),
        ]
    } else {
        Seq::empty()
    }
}

/// The mitigations a mission's risk calls for, before sorting.
pub open spec fn is_mitigation(i: MissionRiskInputs, t: Seq<char>) -> bool {
    ||| has_text(i.safety_recommendations@, t)
    ||| has_text(i.recovery_recommendations@, t)
    ||| has_text(i.contract_issues@, t)
    ||| (!i.mission_ready && t == "Improve readiness score before deployment"@)
    ||| (inverse_pct(i.trust_score) > 40 && t == "Review trust posture (tier="@ + i.trust_tier@
        + ") before field rollout"@)
}

fn count_failed(c: &Vec<bool>) -> (r: u64)
    ensures
        r == failed_checks(c@),
{
    let mut n: u64 = 0;
    let mut i: usize = 0;
    assert(c@.take(0) =~= Seq::<bool>::empty());
    while i < c.len()
        invariant
            i <= c.len(),
            n == failed_checks(c@.take(i as int)),
            n <= i,
        decreases c.len() - i,
    {
        assert(c@.take(i + 1).drop_last() =~= c@.take(i as int));
        if !c[i] {
            n = n + 1;
        }
        i = i + 1;
    }
    assert(c@.take(c.len() as int) =~= c@);
    n
}

fn add_all_sorted(out: &mut Vec<String>, items: &Vec<String>)
    requires
        sorted_strict(old(out)@),
    ensures
        sorted_strict(final(out)@),
        forall|t: Seq<char>|
            #[trigger] has_text(final(out)@, t) <==> (has_text(old(out)@, t) || has_text(items@, t)),
{
    let mut i: usize = 0;
    while i < items.len()
        invariant
            i <= items.len(),
            sorted_strict(out@),
            forall|t: Seq<char>|
                has_text(out@, t) <==> (has_text(old(out)@, t) || has_text(items@.take(i as int), t)),
        decreases items.len() - i,
    {
        let ghost before = out@;
        let x = items[i].clone();
        insert_sorted_unique(out, x);
        proof {
            let a = items@.take(i as int);
            let b = items@.take(i + 1);
            assert forall|t: Seq<char>|
                has_text(out@, t) <==> (has_text(old(out)@, t) || has_text(b, t)) by {
                if has_text(a, t) {
                    let k = choose|k: int| 0 <= k < a.len() && #[trigger] a[k]@ == t;
                    assert(b[k]@ == t);
                }
                if has_text(b, t) {
                    let k = choose|k: int| 0 <= k < b.len() && #[trigger] b[k]@ == t;
                    if k < i {
                        assert(a[k]@ == t);
                    }
                }
                if t == items@[i as int]@ {
                    assert(b[i as int]@ == t);
                }
            }
        }
        i = i + 1;
    }
    assert(items@.take(items.len() as int) =~= items@);
}

fn push_factor(factors: &mut Vec<MissionRiskFactor>, f: MissionRiskFactor)
    ensures
        factor_views(final(factors)@) == factor_views(old(factors)@).push(factor_view(f)),
        weight_total(factor_views(final(factors)@)) == weight_total(factor_views(old(factors)@)) + f.weight,
        weighted_sum(factor_views(final(factors)@)) == weighted_sum(factor_views(old(factors)@)) + if f.weight > 0 {
            min_nat((f.score * f.weight) as nat, u32::MAX as nat)
        } else {
            0
        },
{
    let ghost before = factor_views(factors@);
    factors.push(f);
    assert(factor_views(factors@) =~= before.push(factor_view(f)));
    assert(factor_views(factors@).drop_last() =~= before);
}

fn make_readiness_detail(i: &MissionRiskInputs) -> (r: String)
    ensures
        r@ == readiness_detail(*i),
{
    let mut d1 = "mission_ready=".to_owned();
    d1.append(bool_str(i.mission_ready));
    d1.append(", score ");
    append_dec(&mut d1, i.readiness_total as u64);
    d1.append("/");
    append_dec(&mut d1, i.readiness_maximum as u64);
    d1
}

fn make_safety_detail(i: &MissionRiskInputs) -> (r: String)
    ensures
        r@ == safety_detail(*i),
{
    let mut d2 = "coverage ".to_owned();
    append_dec(&mut d2, i.safety_coverage_pct as u64);
    d2.append("%, ");
    append_dec(&mut d2, i.safety_scenarios);
    d2.append(" scenarios");
    d2
}

fn make_recovery_detail(i: &MissionRiskInputs) -> (r: String)
    ensures
        r@ == recovery_detail(*i),
{
    let mut d3 = "coverage ".to_owned();
    append_dec(&mut d3, i.recovery_coverage_pct as u64);
    d3.append("%, ");
    append_dec(&mut d3, i.recovery_uncovered);
    d3.append(" uncovered");
    d3
}

fn make_trust_detail(i: &MissionRiskInputs) -> (r: String)
    ensures
        r@ == trust_detail(*i),
{
    let mut d4 = "composite trust ".to_owned();
    append_dec(&mut d4, i.trust_score as u64);
    d4.append("/100 tier=");
    d4.append(i.trust_tier.as_str());
    d4
}

fn make_contract_detail(i: &MissionRiskInputs) -> (r: String)
    ensures
        r@ == contract_detail(*i),
{
    let mut d5 = "passed=".to_owned();
    d5.append(bool_str(i.contract_passed));
    d5.append(", ");
    append_dec(&mut d5, i.contract_checks_passed.len() as u64);
    d5.append(" checks");
    d5
}

fn make_what_if_detail(i: &MissionRiskInputs) -> (r: String)
    ensures
        r@ == what_if_detail(*i),
{
    let mut d6 = String::new();
    append_dec(&mut d6, i.what_if_high_risk);
    d6.append(" high-risk of ");
    append_dec(&mut d6, i.what_if_total);
    d6.append(" scenarios");
    d6
}

fn build_fixed_factors(inputs: &MissionRiskInputs) -> (factors: Vec<MissionRiskFactor>)
    requires
        inputs.readiness_pct <= 100,
    ensures
        factor_views(factors@) == fixed_factor_views(*inputs),
        weight_total(factor_views(factors@)) == 100,
        weighted_sum(factor_views(factors@)) <= 10000,
{
    let i = inputs;
    let readiness_risk: u32 = if i.mission_ready {
        (100 - i.readiness_pct) / 2
    } else {
        100 - i.readiness_pct
    };
    let safety_risk: u32 = 100 - if i.safety_coverage_pct > 100 { 100 } else { i.safety_coverage_pct };
    let recovery_risk: u32 = 100 - if i.recovery_coverage_pct > 100 { 100 } else { i.recovery_coverage_pct };
    let trust_risk: u32 = 100 - if i.trust_score > 100 { 100 } else { i.trust_score };
    let failed = count_failed(&i.contract_checks_passed);
    let contract_risk: u32 = if !i.contract_passed {
        85
    } else if failed >= 5 {
        100
    } else {
        (failed * 20) as u32
    };
    let d1 = make_readiness_detail(i);
    let d2 = make_safety_detail(i);
    let d3 = make_recovery_detail(i);
    let d4 = make_trust_detail(i);
    let d5 = make_contract_detail(i);
    let d6 = make_what_if_detail(i);
    let mut factors: Vec<MissionRiskFactor> = Vec::new();
    assert(weighted_sum(factor_views(factors@)) == 0 && weight_total(factor_views(factors@)) == 0);
    push_factor(&mut factors, factor("readiness", 25, readiness_risk, d1));
    push_factor(&mut factors, factor("safety_coverage", 20, safety_risk, d2));
    push_factor(&mut factors, factor("recovery_coverage", 20, recovery_risk, d3));
    push_factor(&mut factors, factor("trust", 15, trust_risk, d4));
    push_factor(&mut factors, factor("mission_contract", 10, contract_risk, d5));
    push_factor(&mut factors, factor("what_if_scenarios", 10, i.what_if_risk, d6));
    assert(factor_views(factors@) =~= fixed_factor_views(*inputs));
    factors
}

fn build_risk_factors(inputs: &MissionRiskInputs) -> (factors: Vec<MissionRiskFactor>)
    requires
        inputs.readiness_pct <= 100,
    ensures
        factor_views(factors@) == risk_factor_views(*inputs),
        weight_total(factor_views(factors@)) == 100,
        weighted_sum(factor_views(factors@)) <= 10000,
{
    let i = inputs;
    let mut factors = build_fixed_factors(inputs);
    let ghost fixed = factor_views(factors@);
    let hardware_risk: u32 = if i.hardware_compatible {
        0
    } else if i.hardware_errors >= 9 {
        100
    } else {
        (i.hardware_errors * 12) as u32
    };
    let fleet_risk: u32 = if i.has_fleet && i.recovery_uncovered > 0 {
        40
    } else if i.has_fleet {
        15
    } else {
        0
    };
    if hardware_risk > 0 {
        let mut d = String::new();
        append_dec(&mut d, i.hardware_errors);
        d.append(" compatibility issue(s)");
        push_factor(&mut factors, factor("hardware_margin", 0, hardware_risk, d));
    }
    assert(factor_views(factors@) =~= fixed + hardware_factor_views(*inputs));
    let ghost with_hw = factor_views(factors@);
    if fleet_risk > 0 {
        push_factor(
            &mut factors,
            factor(
                "fleet_dependency",
                0,
                fleet_risk,
                "fleet declared; recovery gaps increase coordination risk".to_owned(),
            ),
        );
    }
    assert(factor_views(factors@) =~= with_hw + fleet_factor_views(*inputs));
    factors
}

fn collect_mitigations(inputs: &MissionRiskInputs) -> (r: Vec<String>)
    ensures
        sorted_strict(r@),
        forall|t: Seq<char>| has_text(r@, t) <==> is_mitigation(*inputs, t),
{
    let i = inputs;
    let trust_risk: u32 = 100 - if i.trust_score > 100 { 100 } else { i.trust_score };
    let mut mitigations: Vec<String> = Vec::new();
    let ghost m0 = mitigations@;
    assert(forall|t: Seq<char>| !has_text(m0, t));
    add_all_sorted(&mut mitigations, &i.safety_recommendations);
    let ghost m1 = mitigations@;
    add_all_sorted(&mut mitigations, &i.recovery_recommendations);
    let ghost m2 = mitigations@;
    add_all_sorted(&mut mitigations, &i.contract_issues);
    let ghost base = mitigations@;
    assert forall|t: Seq<char>| #[trigger] has_text(base, t) <==> (has_text(i.safety_recommendations@, t)
        || has_text(i.recovery_recommendations@, t) || has_text(i.contract_issues@, t)) by {
        assert(!has_text(m0, t));
        assert(has_text(m1, t) <==> (has_text(m0, t) || has_text(i.safety_recommendations@, t)));
        assert(has_text(m2, t) <==> (has_text(m1, t) || has_text(i.recovery_recommendations@, t)));
        assert(has_text(base, t) <==> (has_text(m2, t) || has_text(i.contract_issues@, t)));
    }
    if !i.mission_ready {
        let x = "Improve readiness score before deployment".to_owned();
        insert_sorted_unique(&mut mitigations, x);
    }
    let ghost mid = mitigations@;
    assert(forall|t: Seq<char>| has_text(mid, t) <==> (has_text(base, t) || (!i.mission_ready
        && t == "Improve readiness score before deployment"@)));
    assert(trust_risk == inverse_pct(i.trust_score));
    if trust_risk > 40 {
        let mut m = "Review trust posture (tier=".to_owned();
        m.append(i.trust_tier.as_str());
        m.append(") before field rollout");
        insert_sorted_unique(&mut mitigations, m);
    }
    assert forall|t: Seq<char>| has_text(mitigations@, t) <==> is_mitigation(*inputs, t) by {
        assert(has_text(mitigations@, t) <==> (has_text(mid, t) || (inverse_pct(i.trust_score) > 40
            && t == "Review trust posture (tier="@ + i.trust_tier@ + ") before field rollout"@)));
    }
    mitigations
}

/// Compose the engines' results into a mission risk assessment: the
/// weighted factors, their tier, and the sorted, deduplicated mitigations.
pub fn evaluate_mission_risk(inputs: &MissionRiskInputs, source_label: &str) -> (r: MissionRiskAssessment)
    requires
        inputs.readiness_pct <= 100,
    ensures
        r.program@ == source_label@,
        factor_views(r.factors@) == risk_factor_views(*inputs),
        r.score.total == spec_weighted_risk(risk_factor_views(*inputs)),
        r.score.tier@ == spec_risk_tier(r.score.total as nat),
        sorted_strict(r.mitigations@),
        forall|t: Seq<char>| has_text(r.mitigations@, t) <==> is_mitigation(*inputs, t),
{
    let factors = build_risk_factors(inputs);
    let total = weighted_risk(&factors);
    let tier = risk_tier(total);
    let mitigations = collect_mitigations(inputs);
    MissionRiskAssessment {
        program: source_label.to_owned(),
        score: MissionRiskScore { total, tier },
        factors,
        mitigations,
    }
}

/// One contributor line per factor, each starting a new line:
/// `  <name> — <detail> (weight <w>, score <s>)`.
pub open spec fn contributor_lines(fs: Seq<MissionRiskFactor>) -> Seq<char>
    decreases fs.len(),
{
    if fs.len() == 0 {
        Seq::empty()
    } else {
        let f = fs.last();
        contributor_lines(fs.drop_last()) + "\n  "@ + f.name@ + " — "@ + f.detail@ + " (weight "@ + dec_text(
            f.weight as nat,
        ) + ", score "@ + dec_text(f.score as nat) + ")"@
    }
}

/// One line per mitigation, each starting a new line: `  - <item>`.
pub open spec fn mitigation_lines(ms: Seq<String>) -> Seq<char>
    decreases ms.len(),
{
    if ms.len() == 0 {
        Seq::empty()
    } else {
        mitigation_lines(ms.drop_last()) + "\n  - "@ + ms.last()@
    }
}

/// A mission risk assessment as text: the program, the score and tier, the
/// contributors, then the recommended mitigations when there are any.
pub open spec fn mission_risk_text(r: MissionRiskAssessment) -> Seq<char> {
    "Mission risk: "@ + r.program@ + "\nRisk score: "@ + dec_text(r.score.total as nat) + "/100 ("@ + r.score.tier@
        + ")\n\nContributors:"@ + contributor_lines(r.factors@) + if r.mitigations@.len() == 0 {
        Seq::empty()
    } else {
        "\n\nRecommended mitigations:"@ + mitigation_lines(r.mitigations@)
    }
}

/// A mission risk assessment as text.
pub fn format_mission_risk_text(report: &MissionRiskAssessment) -> (r: String)
    ensures
        r@ == mission_risk_text(*report),
{
    let mut out = "Mission risk: ".to_owned();
    out.append(report.program.as_str());
    out.append("\nRisk score: ");
    append_dec(&mut out, report.score.total as u64);
    out.append("/100 (");
    out.append(report.score.tier.as_str());
    out.append(")\n\nContributors:");
    let ghost head = out@;
    let fs = &report.factors;
    let mut i: usize = 0;
    assert(fs@.take(0) =~= Seq::<MissionRiskFactor>::empty());
    while i < fs.len()
        invariant
            i <= fs.len(),
            out@ == head + contributor_lines(fs@.take(i as int)),
        decreases fs.len() - i,
    {
        assert(fs@.take(i + 1).drop_last() =~= fs@.take(i as int));
        out.append("\n  ");
        out.append(fs[i].name.as_str());
        out.append(" — ");
        out.append(fs[i].detail.as_str());
        out.append(" (weight ");
        append_dec(&mut out, fs[i].weight as u64);
        out.append(", score ");
        append_dec(&mut out, fs[i].score as u64);
        out.append(")");
        i = i + 1;
    }
    assert(fs@.take(fs.len() as int) =~= fs@);
    let ms = &report.mitigations;
    if ms.len() > 0 {
        out.append("\n\nRecommended mitigations:");
        let ghost mid = out@;
        let mut k: usize = 0;
        assert(ms@.take(0) =~= Seq::<String>::empty());
        while k < ms.len()
            invariant
                k <= ms.len(),
                out@ == mid + mitigation_lines(ms@.take(k as int)),
            decreases ms.len() - k,
        {
            assert(ms@.take(k + 1).drop_last() =~= ms@.take(k as int));
            out.append("\n  - ");
            out.append(ms[k].as_str());
            k = k + 1;
        }
        assert(ms@.take(ms.len() as int) =~= ms@);
    }
    assert(out@ =~= mission_risk_text(*report));
    out
}

/// Readiness weighs a quarter of the risk, and its score is the readiness
/// shortfall: the whole of it for a program that is not mission ready, half
/// of it (rounded down) for one that is.
pub proof fn law_readiness_risk_is_shortfall(i: MissionRiskInputs)
    requires
        i.readiness_pct <= 100,
    ensures
        risk_factor_views(i)[0].0 == "readiness"@,
        risk_factor_views(i)[0].1 == 25,
        !i.mission_ready ==> risk_factor_views(i)[0].2 + i.readiness_pct == 100,
        i.mission_ready ==> 2 * risk_factor_views(i)[0].2 <= 100 - i.readiness_pct <= 2 * risk_factor_views(i)[0].2
            + 1,
{
    assert(risk_factor_views(i)[0] == fixed_factor_views(i)[0]);
}

} // verus!
