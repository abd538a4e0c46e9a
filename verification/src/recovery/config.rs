//! The recovery section of the system configuration: its values, and the
//! policies and playbooks read from them.
use vstd::prelude::*;
use crate::text::{
    lemma_seq_lt_irreflexive, lemma_seq_lt_total, lemma_seq_lt_transitive, seq_lt, str_eq, str_lt, texts,
};
use crate::recovery::entity::EntityKind;
use crate::recovery::types::{parse_strategy, parses_to, OrchestratorStrategy, RecoveryEscalationLevel};
use crate::recovery::policy::{EntityRecoveryPolicy, EscalationRule};
use crate::recovery::playbook::{
    default_playbook_views, load_playbooks, merge_named, sort_by_name, views, PlaybookStep, RecoveryPlaybook,
};

verus! {

/// A value of the recovery configuration section. Tables keep their keys
/// in the order the configuration lists them.
#[derive(Debug)]
pub enum ConfigValue {
    Str(String),
    Int(i64),
    Bool(bool),
    Array(Vec<ConfigValue>),
    Table(Vec<(String, ConfigValue)>),
    Other,
}

/// `t[i]` is the first entry of the table with this key.
pub open spec fn first_key(t: Seq<(String, ConfigValue)>, key: Seq<char>, i: int) -> bool {
    0 <= i < t.len() && t[i].0@ == key && forall|j: int| 0 <= j < i ==> (#[trigger] t[j]).0@ != key
}

/// The value of the first entry with this key.
pub open spec fn entry(t: Seq<(String, ConfigValue)>, key: Seq<char>) -> Option<ConfigValue> {
    if exists|i: int| first_key(t, key, i) {
        Some(t[choose|i: int| first_key(t, key, i)].1)
    } else {
        None
    }
}

pub open spec fn get_str(v: Option<ConfigValue>) -> Option<Seq<char>> {
    match v {
        Some(ConfigValue::Str(s)) => Some(s@),
        _ => None,
    }
}

pub open spec fn get_int(v: Option<ConfigValue>) -> Option<i64> {
    match v {
        Some(ConfigValue::Int(n)) => Some(n),
        _ => None,
    }
}

pub open spec fn get_bool(v: Option<ConfigValue>) -> Option<bool> {
    match v {
        Some(ConfigValue::Bool(b)) => Some(b),
        _ => None,
    }
}

pub open spec fn get_array(v: Option<ConfigValue>) -> Option<Seq<ConfigValue>> {
    match v {
        Some(ConfigValue::Array(a)) => Some(a@),
        _ => None,
    }
}

pub open spec fn get_table(v: Option<ConfigValue>) -> Option<Seq<(String, ConfigValue)>> {
    match v {
        Some(ConfigValue::Table(t)) => Some(t@),
        _ => None,
    }
}

fn lookup<'a>(t: &'a Vec<(String, ConfigValue)>, key: &str) -> (r: Option<&'a ConfigValue>)
    ensures
        match r {
            Some(v) => entry(t@, key@) == Some(*v),
            None => entry(t@, key@) is None,
        },
{
    let mut i: usize = 0;
    while i < t.len()
        invariant
            i <= t.len(),
            forall|j: int| 0 <= j < i ==> (#[trigger] t@[j]).0@ != key@,
        decreases t.len() - i,
    {
        if str_eq(t[i].0.as_str(), key) {
            proof {
                assert(first_key(t@, key@, i as int));
                let k = choose|k: int| first_key(t@, key@, k);
                if k < i {
                    assert(t@[k].0@ != key@);
                } else if i < k {
                    assert(t@[i as int].0@ != key@);
                }
            }
            return Some(&t[i].1);
        }
        i = i + 1;
    }
    proof {
        if exists|k: int| first_key(t@, key@, k) {
            let k = choose|k: int| first_key(t@, key@, k);
            assert(t@[k].0@ != key@);
        }
    }
    None
}

fn lookup_str<'a>(t: &'a Vec<(String, ConfigValue)>, key: &str) -> (r: Option<&'a str>)
    ensures
        match r {
            Some(s) => get_str(entry(t@, key@)) == Some(s@),
            None => get_str(entry(t@, key@)) is None,
        },
{
    match lookup(t, key) {
        Some(ConfigValue::Str(s)) => Some(s.as_str()),
        _ => None,
    }
}

fn lookup_int(t: &Vec<(String, ConfigValue)>, key: &str) -> (r: Option<i64>)
    ensures
        r == get_int(entry(t@, key@)),
{
    match lookup(t, key) {
        Some(ConfigValue::Int(n)) => Some(*n),
        _ => None,
    }
}

fn lookup_bool(t: &Vec<(String, ConfigValue)>, key: &str) -> (r: Option<bool>)
    ensures
        r == get_bool(entry(t@, key@)),
{
    match lookup(t, key) {
        Some(ConfigValue::Bool(b)) => Some(*b),
        _ => None,
    }
}

/// The texts of an array's string items, in order.
pub open spec fn strings_of(a: Seq<ConfigValue>) -> Seq<Seq<char>>
    decreases a.len(),
{
    if a.len() == 0 {
        Seq::empty()
    } else {
        let prev = strings_of(a.drop_last());
        match a.last() {
            ConfigValue::Str(s) => prev.push(s@),
            _ => prev,
        }
    }
}

/// The string items of the array under `key`, or none.
pub open spec fn string_array_of(t: Seq<(String, ConfigValue)>, key: Seq<char>) -> Seq<Seq<char>> {
    match get_array(entry(t, key)) {
        Some(a) => strings_of(a),
        None => Seq::empty(),
    }
}

/// The string items of the array under `key`, in order.
pub fn string_array(t: &Vec<(String, ConfigValue)>, key: &str) -> (r: Vec<String>)
    ensures
        texts(r@) == string_array_of(t@, key@),
{
    let mut out: Vec<String> = Vec::new();
    match lookup(t, key) {
        Some(ConfigValue::Array(a)) => {
            let mut i: usize = 0;
            assert(a@.take(0) =~= Seq::<ConfigValue>::empty());
            while i < a.len()
                invariant
                    i <= a.len(),
                    texts(out@) == strings_of(a@.take(i as int)),
                decreases a.len() - i,
            {
                assert(a@.take(i + 1).drop_last() =~= a@.take(i as int));
                match &a[i] {
                    ConfigValue::Str(s) => {
                        let ghost before = texts(out@);
                        out.push(s.clone());
                        assert(texts(out@) =~= before.push(s@));
                    },
                    _ => {},
                }
                i = i + 1;
            }
            assert(a@.take(a.len() as int) =~= a@);
        },
        _ => {},
    }
    out
}

/// The level with this number, through an 8-bit conversion, when it is a
/// level.
pub open spec fn level_number_ok(n: Option<i64>, l: RecoveryEscalationLevel) -> bool {
    match n {
        Some(x) => (x as u8) <= 8 && l.rank() == (x as u8) as nat,
        None => false,
    }
}

/// The escalation rule an array item gives: from and to levels that are
/// levels, the strategy (retry by default) and the retries before it
/// applies (1 by default).
pub open spec fn rule_ok(t: Seq<(String, ConfigValue)>, r: EscalationRule) -> bool {
    &&& level_number_ok(get_int(entry(t, "from_level"@)), r.from_level)
    &&& level_number_ok(get_int(entry(t, "to_level"@)), r.to_level)
    &&& match get_str(entry(t, "strategy"@)) {
        Some(s) => parses_to(s, r.strategy),
        None => r.strategy == OrchestratorStrategy::Retry,
    }
    &&& r.after_retries == match get_int(entry(t, "after_retries"@)) {
        Some(n) => n as u32,
        None => 1u32,
    }
}

/// The item gives a rule: it is a table whose from and to levels are levels.
pub open spec fn gives_rule(v: ConfigValue) -> bool {
    match v {
        ConfigValue::Table(t) => (match get_int(entry(t@, "from_level"@)) {
            Some(x) => (x as u8) <= 8,
            None => false,
        }) && (match get_int(entry(t@, "to_level"@)) {
            Some(x) => (x as u8) <= 8,
            None => false,
        }),
        _ => false,
    }
}

/// The rules are those of the items that give one, in order.
pub open spec fn rules_match(items: Seq<ConfigValue>, rules: Seq<EscalationRule>) -> bool
    decreases items.len(),
{
    if items.len() == 0 {
        rules.len() == 0
    } else if gives_rule(items.last()) {
        rules.len() > 0 && rules_match(items.drop_last(), rules.drop_last()) && match items.last() {
            ConfigValue::Table(t) => rule_ok(t@, rules.last()),
            _ => false,
        }
    } else {
        rules_match(items.drop_last(), rules)
    }
}

fn level_of(n: Option<i64>) -> (r: Option<RecoveryEscalationLevel>)
    ensures
        match r {
            Some(l) => level_number_ok(n, l),
            None => !(n matches Some(x) && (x as u8) <= 8),
        },
{
    match n {
        Some(x) => {
            #[verifier::truncate]
            let b = x as u8;
            RecoveryEscalationLevel::from_u8(b)
        },
        None => None,
    }
}

/// The escalation rules of a policy table.
pub fn parse_escalation_rules(t: &Vec<(String, ConfigValue)>) -> (r: Vec<EscalationRule>)
    ensures
        rules_match(
            match get_array(entry(t@, "escalation_rules"@)) {
                Some(a) => a,
                None => Seq::empty(),
            },
            r@,
        ),
{
    let mut out: Vec<EscalationRule> = Vec::new();
    match lookup(t, "escalation_rules") {
        Some(ConfigValue::Array(a)) => {
            let mut i: usize = 0;
            assert(a@.take(0) =~= Seq::<ConfigValue>::empty());
            while i < a.len()
                invariant
                    i <= a.len(),
                    rules_match(a@.take(i as int), out@),
                decreases a.len() - i,
            {
                assert(a@.take(i + 1).drop_last() =~= a@.take(i as int));
                assert(a@.take(i + 1).last() == a@[i as int]);
                let ghost before = out@;
                match &a[i] {
                    ConfigValue::Table(it) => {
                        let from = level_of(lookup_int(it, "from_level"));
                        let to = level_of(lookup_int(it, "to_level"));
                        match (from, to) {
                            (Some(f), Some(l)) => {
                                let strategy = match lookup_str(it, "strategy") {
                                    Some(s) => parse_strategy(s),
                                    None => OrchestratorStrategy::Retry,
                                };
                                #[verifier::truncate]
                                let after_retries: u32 = match lookup_int(it, "after_retries") {
                                    Some(n) => n as u32,
                                    None => 1,
                                };
                                out.push(EscalationRule { from_level: f, to_level: l, after_retries, strategy });
                                assert(out@.drop_last() =~= before);
                            },
                            _ => {},
                        }
                    },
                    _ => {},
                }
                i = i + 1;
            }
            assert(a@.take(a.len() as int) =~= a@);
        },
        _ => {},
    }
    out
}

/// The entity a policy table is for: its `entity_id`, else its name.
pub open spec fn policy_entity_id(name: Seq<char>, t: Seq<(String, ConfigValue)>) -> Seq<char> {
    match get_str(entry(t, "entity_id"@)) {
        Some(s) => s,
        None => name,
    }
}

/// The policy reads every setting of the table, each in place of the
/// platform default (the entity is set apart).
pub open spec fn policy_settings_ok(t: Seq<(String, ConfigValue)>, p: EntityRecoveryPolicy) -> bool {
    &&& p.priority == match get_int(entry(t, "priority"@)) {
        Some(n) => n as u32,
        None => 50u32,
    }
    &&& p.timeout_secs == match get_int(entry(t, "timeout_secs"@)) {
        Some(n) => n as u64,
        None => 300u64,
    }
    &&& p.retry_limit == match get_int(entry(t, "retry_limit"@)) {
        Some(n) => n as u32,
        None => 3u32,
    }
    &&& (if get_int(entry(t, "max_escalation_level"@)) matches Some(x) && (x as u8) <= 8 {
        level_number_ok(get_int(entry(t, "max_escalation_level"@)), p.max_escalation_level)
    } else {
        p.max_escalation_level == RecoveryEscalationLevel::Level4RecoverRobot
    })
    &&& p.requires_approval == match get_bool(entry(t, "requires_approval"@)) {
        Some(b) => b,
        None => false,
    }
    &&& texts(p.dependencies@) == string_array_of(t, "dependencies"@)
    &&& texts(p.validation_rules@) == string_array_of(t, "validation_rules"@)
    &&& texts(p.safety_constraints@) == string_array_of(t, "safety_constraints"@)
    &&& texts(p.trust_requirements@) == string_array_of(t, "trust_requirements"@)
    &&& texts(p.readiness_requirements@) == string_array_of(t, "readiness_requirements"@)
    &&& rules_match(
        match get_array(entry(t, "escalation_rules"@)) {
            Some(a) => a,
            None => Seq::empty(),
        },
        p.escalation_rules@,
    )
}

/// The kind a policy table names, when it names a known kind.
pub open spec fn policy_kind_ok(t: Seq<(String, ConfigValue)>, k: Option<EntityKind>) -> bool {
    match get_str(entry(t, "entity_kind"@)) {
        Some(s) => match k {
            Some(kind) => kind.spec_as_str() == s,
            None => forall|kind: EntityKind| #[trigger] kind.spec_as_str() != s,
        },
        None => k is None,
    }
}

/// The policy a policy table describes.
pub open spec fn policy_ok(name: Seq<char>, t: Seq<(String, ConfigValue)>, p: EntityRecoveryPolicy) -> bool {
    &&& p.entity_id@ == policy_entity_id(name, t)
    &&& policy_kind_ok(t, p.entity_kind)
    &&& policy_settings_ok(t, p)
}

/// The policy of a policy table; `None` when the value is no table.
pub fn parse_policy_table(name: &str, value: &ConfigValue) -> (r: Option<EntityRecoveryPolicy>)
    ensures
        match value {
            ConfigValue::Table(t) => r matches Some(p) && policy_ok(name@, t@, p),
            _ => r is None,
        },
{
    match value {
        ConfigValue::Table(t) => Some(parse_policy_fields(name, t)),
        _ => None,
    }
}

fn parse_policy_fields(name: &str, t: &Vec<(String, ConfigValue)>) -> (p: EntityRecoveryPolicy)
    ensures
        policy_ok(name@, t@, p),
{
    let mut policy = EntityRecoveryPolicy::platform_default();
    policy.entity_id = match lookup_str(t, "entity_id") {
        Some(s) => s.to_owned(),
        None => name.to_owned(),
    };
    match lookup_str(t, "entity_kind") {
        Some(k) => {
            policy.entity_kind = EntityKind::parse_name(k);
        },
        None => {},
    }
    match lookup_int(t, "priority") {
        Some(p) => {
            #[verifier::truncate]
            let v = p as u32;
            policy.priority = v;
        },
        None => {},
    }
    match lookup_int(t, "timeout_secs") {
        Some(p) => {
            #[verifier::truncate]
            let v = p as u64;
            policy.timeout_secs = v;
        },
        None => {},
    }
    match lookup_int(t, "retry_limit") {
        Some(p) => {
            #[verifier::truncate]
            let v = p as u32;
            policy.retry_limit = v;
        },
        None => {},
    }
    match level_of(lookup_int(t, "max_escalation_level")) {
        Some(l) => {
            policy.max_escalation_level = l;
        },
        None => {},
    }
    match lookup_bool(t, "requires_approval") {
        Some(a) => {
            policy.requires_approval = a;
        },
        None => {},
    }
    policy.dependencies = string_array(t, "dependencies");
    policy.validation_rules = string_array(t, "validation_rules");
    policy.safety_constraints = string_array(t, "safety_constraints");
    policy.trust_requirements = string_array(t, "trust_requirements");
    policy.readiness_requirements = string_array(t, "readiness_requirements");
    policy.escalation_rules = parse_escalation_rules(t);
    policy
}


/// The policies are strictly sorted by entity id (so each id has one).
pub open spec fn policies_sorted(s: Seq<EntityRecoveryPolicy>) -> bool {
    forall|i: int, j: int| 0 <= i < j < s.len() ==> seq_lt(#[trigger] s[i].entity_id@, #[trigger] s[j].entity_id@)
}

/// The policy for the entity, if any.
pub open spec fn policy_at(s: Seq<EntityRecoveryPolicy>, t: Seq<char>) -> Option<EntityRecoveryPolicy> {
    if exists|i: int| 0 <= i < s.len() && (#[trigger] s[i]).entity_id@ == t {
        Some(s[choose|i: int| 0 <= i < s.len() && (#[trigger] s[i]).entity_id@ == t])
    } else {
        None
    }
}

proof fn lemma_policy_at_index(s: Seq<EntityRecoveryPolicy>, i: int)
    requires
        policies_sorted(s),
        0 <= i < s.len(),
    ensures
        policy_at(s, s[i].entity_id@) == Some(s[i]),
{
    let t = s[i].entity_id@;
    assert(0 <= i < s.len() && s[i].entity_id@ == t);
    let k = choose|k: int| 0 <= k < s.len() && (#[trigger] s[k]).entity_id@ == t;
    assert(s[k].entity_id@ == t);
    lemma_seq_lt_irreflexive(t);
    if k < i {
        assert(seq_lt(s[k].entity_id@, s[i].entity_id@));
        assert(false);
    } else if k > i {
        assert(seq_lt(s[i].entity_id@, s[k].entity_id@));
        assert(false);
    }
    assert(k == i);
}

fn find_policy_index(v: &Vec<EntityRecoveryPolicy>, id: &str) -> (r: Option<usize>)
    requires
        policies_sorted(v@),
    ensures
        match r {
            Some(i) => i < v@.len() && v@[i as int].entity_id@ == id@ && policy_at(v@, id@) == Some(v@[i as int]),
            None => policy_at(v@, id@) is None,
        },
{
    let mut i: usize = 0;
    while i < v.len()
        invariant
            i <= v.len(),
            policies_sorted(v@),
            forall|j: int| 0 <= j < i ==> (#[trigger] v@[j]).entity_id@ != id@,
        decreases v.len() - i,
    {
        if str_eq(v[i].entity_id.as_str(), id) {
            proof {
                lemma_policy_at_index(v@, i as int);
            }
            return Some(i);
        }
        i = i + 1;
    }
    None
}

/// Put a policy into a sorted list, in place of the policy for the same
/// entity if there is one.
fn put_policy(v: &mut Vec<EntityRecoveryPolicy>, p: EntityRecoveryPolicy)
    requires
        policies_sorted(old(v)@),
    ensures
        policies_sorted(final(v)@),
        forall|t: Seq<char>| #[trigger] policy_at(final(v)@, t) == if t == p.entity_id@ {
            Some(p)
        } else {
            policy_at(old(v)@, t)
        },
{
    let ghost pv = p;
    let n = v.len();
    let mut k: usize = 0;
    while k < n
        invariant
            n == v.len(),
            v@ == old(v)@,
            k <= n,
            forall|j: int| 0 <= j < k ==> seq_lt(#[trigger] v@[j].entity_id@, p.entity_id@),
        ensures
            k <= n,
            n == v.len(),
            v@ == old(v)@,
            k < n ==> !seq_lt(v@[k as int].entity_id@, p.entity_id@),
            forall|j: int| 0 <= j < k ==> seq_lt(#[trigger] v@[j].entity_id@, p.entity_id@),
        decreases n - k,
    {
        if !str_lt(v[k].entity_id.as_str(), p.entity_id.as_str()) {
            break;
        }
        k = k + 1;
    }
    let ghost old_v = v@;
    if k < n && str_eq(v[k].entity_id.as_str(), p.entity_id.as_str()) {
        v.set(k, p);
        proof {
            assert forall|i: int, j: int| 0 <= i < j < v@.len() implies seq_lt(#[trigger] v@[i].entity_id@, #[trigger] v@[j].entity_id@) by {
                assert(seq_lt(old_v[i].entity_id@, old_v[j].entity_id@));
            }
            assert forall|t: Seq<char>| #[trigger] policy_at(v@, t) == if t == pv.entity_id@ {
                Some(pv)
            } else {
                policy_at(old_v, t)
            } by {
                lemma_policy_at_index(v@, k as int);
                if t != pv.entity_id@ {
                    if exists|i: int| 0 <= i < v@.len() && (#[trigger] v@[i]).entity_id@ == t {
                        let i = choose|i: int| 0 <= i < v@.len() && (#[trigger] v@[i]).entity_id@ == t;
                        assert(i != k);
                        assert(old_v[i] == v@[i]);
                        lemma_policy_at_index(v@, i);
                        lemma_policy_at_index(old_v, i);
                    } else {
                        if exists|i: int| 0 <= i < old_v.len() && (#[trigger] old_v[i]).entity_id@ == t {
                            let i = choose|i: int| 0 <= i < old_v.len() && (#[trigger] old_v[i]).entity_id@ == t;
                            assert(v@[i].entity_id@ == t);
                        }
                    }
                }
            }
        }
        return;
    }
    proof {
        if k < n {
            lemma_seq_lt_total(old_v[k as int].entity_id@, pv.entity_id@);
            assert forall|j: int| k <= j < n implies seq_lt(pv.entity_id@, #[trigger] old_v[j].entity_id@) by {
                if j > k {
                    lemma_seq_lt_transitive(pv.entity_id@, old_v[k as int].entity_id@, old_v[j].entity_id@);
                }
            }
        }
    }
    v.insert(k, p);
    proof {
        assert forall|i: int, j: int| 0 <= i < j < v@.len() implies seq_lt(#[trigger] v@[i].entity_id@, #[trigger] v@[j].entity_id@) by {
            if i < k && j > k {
                lemma_seq_lt_transitive(v@[i].entity_id@, pv.entity_id@, v@[j].entity_id@);
            } else if i < k && j < k {
                assert(seq_lt(old_v[i].entity_id@, old_v[j].entity_id@));
            } else if i > k {
                assert(seq_lt(old_v[i - 1].entity_id@, old_v[j - 1].entity_id@));
            }
        }
        assert forall|t: Seq<char>| #[trigger] policy_at(v@, t) == if t == pv.entity_id@ {
            Some(pv)
        } else {
            policy_at(old_v, t)
        } by {
            lemma_policy_at_index(v@, k as int);
            if t != pv.entity_id@ {
                if exists|i: int| 0 <= i < v@.len() && (#[trigger] v@[i]).entity_id@ == t {
                    let i = choose|i: int| 0 <= i < v@.len() && (#[trigger] v@[i]).entity_id@ == t;
                    assert(i != k);
                    let oi = if i < k { i } else { i - 1 };
                    assert(old_v[oi] == v@[i]);
                    lemma_policy_at_index(v@, i);
                    lemma_policy_at_index(old_v, oi);
                } else {
                    if exists|i: int| 0 <= i < old_v.len() && (#[trigger] old_v[i]).entity_id@ == t {
                        let i = choose|i: int| 0 <= i < old_v.len() && (#[trigger] old_v[i]).entity_id@ == t;
                        let ni = if i < k { i } else { i + 1 };
                        assert(v@[ni].entity_id@ == t);
                    }
                }
            }
        }
    }
}

/// The last table of the policies section that describes this entity:
/// its name and settings.
pub open spec fn configured_last(entries: Seq<(String, ConfigValue)>, t: Seq<char>) -> Option<(Seq<char>, Seq<(String, ConfigValue)>)>
    decreases entries.len(),
{
    if entries.len() == 0 {
        None
    } else {
        let e = entries.last();
        match e.1 {
            ConfigValue::Table(tab) => if policy_entity_id(e.0@, tab@) == t {
                Some((e.0@, tab@))
            } else {
                configured_last(entries.drop_last(), t)
            },
            _ => configured_last(entries.drop_last(), t),
        }
    }
}

/// The kind of the first entity with this id that may have a policy.
pub open spec fn eligible_first(ents: Seq<crate::recovery::entity::EntityRecord>, t: Seq<char>) -> Option<EntityKind>
    decreases ents.len(),
{
    if ents.len() == 0 {
        None
    } else {
        match eligible_first(ents.drop_last(), t) {
            Some(k) => Some(k),
            None => if ents.last().id@ == t && ents.last().entity_type.spec_is_recoverable() {
                Some(ents.last().entity_type)
            } else {
                None
            },
        }
    }
}

/// The platform default's settings.
pub open spec fn platform_settings(p: EntityRecoveryPolicy) -> bool {
    &&& p.priority == 50
    &&& p.timeout_secs == 300
    &&& p.retry_limit == 3
    &&& p.max_escalation_level == RecoveryEscalationLevel::Level4RecoverRobot
    &&& p.escalation_rules@.len() == 0
    &&& p.dependencies@.len() == 0
    &&& texts(p.validation_rules@) == seq!["health"@, "readiness"@, "trust"@]
    &&& !p.requires_approval
    &&& p.safety_constraints@.len() == 0
    &&& p.trust_requirements@.len() == 0
    &&& p.readiness_requirements@.len() == 0
}

/// The table of a section entry, if it is one.
pub open spec fn section_table(section: Option<&Vec<(String, ConfigValue)>>, key: Seq<char>) -> Option<Seq<(String, ConfigValue)>> {
    match section {
        Some(sec) => get_table(entry(sec@, key)),
        None => None,
    }
}

/// The policy the section and registry give an entity: the last policy
/// table that describes it; else, for an entity that may have a policy,
/// the `default` table's settings, or the platform default's, with the
/// kind of its first such entity.
pub open spec fn expected_policy(
    section: Option<&Vec<(String, ConfigValue)>>,
    ents: Seq<crate::recovery::entity::EntityRecord>,
    t: Seq<char>,
    p: Option<EntityRecoveryPolicy>,
) -> bool {
    match configured_last(
        match section_table(section, "policies"@) {
            Some(tab) => tab,
            None => Seq::empty(),
        },
        t,
    ) {
        Some((name, tab)) => p matches Some(x) && policy_ok(name, tab, x),
        None => match eligible_first(ents, t) {
            Some(kind) => p matches Some(x) && x.entity_id@ == t && x.entity_kind == Some(kind) && match section_table(
                section,
                "default"@,
            ) {
                Some(d) => policy_settings_ok(d, x),
                None => platform_settings(x),
            },
            None => p is None,
        },
    }
}

/// The recovery policies of the section and the registry, sorted by entity
/// id, one per entity.
pub fn load_recovery_policies(
    section: Option<&Vec<(String, ConfigValue)>>,
    registry: &crate::recovery::entity::EntityRegistry,
) -> (r: Vec<EntityRecoveryPolicy>)
    ensures
        policies_sorted(r@),
        forall|t: Seq<char>| #[trigger] expected_policy(section, registry.entities@, t, policy_at(r@, t)),
{
    let mut v: Vec<EntityRecoveryPolicy> = Vec::new();
    let empty: Vec<(String, ConfigValue)> = Vec::new();
    let policies: &Vec<(String, ConfigValue)> = match section {
        Some(sec) => match lookup(sec, "policies") {
            Some(ConfigValue::Table(tab)) => tab,
            _ => &empty,
        },
        None => &empty,
    };
    assert(policies@ == match section_table(section, "policies"@) {
        Some(tab) => tab,
        None => Seq::empty(),
    });
    let mut k: usize = 0;
    assert(policies@.take(0) =~= Seq::<(String, ConfigValue)>::empty());
    while k < policies.len()
        invariant
            k <= policies.len(),
            policies_sorted(v@),
            forall|t: Seq<char>| #[trigger] policy_at(v@, t) == policy_at(v@, t) && match configured_last(policies@.take(k as int), t) {
                Some((name, tab)) => policy_at(v@, t) matches Some(x) && policy_ok(name, tab, x),
                None => policy_at(v@, t) is None,
            },
        decreases policies.len() - k,
    {
        assert(policies@.take(k + 1).drop_last() =~= policies@.take(k as int));
        assert(policies@.take(k + 1).last() == policies@[k as int]);
        let ghost before = v@;
        match &policies[k].1 {
            ConfigValue::Table(tab) => {
                let p = parse_policy_fields(policies[k].0.as_str(), tab);
                put_policy(&mut v, p);
            },
            _ => {},
        }
        proof {
            assert forall|t: Seq<char>| #[trigger] policy_at(v@, t) == policy_at(v@, t) && match configured_last(policies@.take(k + 1), t) {
                Some((name, tab)) => policy_at(v@, t) matches Some(x) && policy_ok(name, tab, x),
                None => policy_at(v@, t) is None,
            } by {
                assert(policy_at(before, t) == policy_at(before, t));
            }
        }
        k = k + 1;
    }
    assert(policies@.take(policies.len() as int) =~= policies@);
    let defaults: Option<&Vec<(String, ConfigValue)>> = match section {
        Some(sec) => match lookup(sec, "default") {
            Some(ConfigValue::Table(tab)) => Some(tab),
            _ => None,
        },
        None => None,
    };
    let ents = registry.list();
    let mut j: usize = 0;
    assert(ents@.take(0) =~= Seq::<crate::recovery::entity::EntityRecord>::empty());
    while j < ents.len()
        invariant
            ents@ == registry.entities@,
            j <= ents.len(),
            policies_sorted(v@),
            match defaults {
                Some(d) => section_table(section, "default"@) == Some(d@),
                None => section_table(section, "default"@) is None,
            },
            forall|t: Seq<char>| #[trigger] policy_at(v@, t) == policy_at(v@, t) && match configured_last(policies@, t) {
                Some((name, tab)) => policy_at(v@, t) matches Some(x) && policy_ok(name, tab, x),
                None => match eligible_first(ents@.take(j as int), t) {
                    Some(kind) => policy_at(v@, t) matches Some(x) && x.entity_id@ == t && x.entity_kind == Some(kind)
                        && match section_table(section, "default"@) {
                        Some(d) => policy_settings_ok(d, x),
                        None => platform_settings(x),
                    },
                    None => policy_at(v@, t) is None,
                },
            },
        decreases ents.len() - j,
    {
        assert(ents@.take(j + 1).drop_last() =~= ents@.take(j as int));
        assert(ents@.take(j + 1).last() == ents@[j as int]);
        let ghost before = v@;
        let e = &ents[j];
        let eligible = e.entity_type.is_recoverable();
        let known = find_policy_index(&v, e.id.as_str()).is_some();
        if eligible && !known {
            let mut p = match defaults {
                Some(d) => parse_policy_fields("default", d),
                None => EntityRecoveryPolicy::platform_default(),
            };
            p.entity_id = e.id.clone();
            p.entity_kind = Some(e.entity_type);
            proof {
                match section_table(section, "default"@) {
                    Some(d) => assert(policy_settings_ok(d, p)),
                    None => {
                        assert(texts(p.validation_rules@) =~= seq!["health"@, "readiness"@, "trust"@]);
                        assert(platform_settings(p));
                    },
                }
                assert(policy_at(before, e.id@) is None);
                assert(policy_at(before, e.id@) == policy_at(before, e.id@));
                assert(configured_last(policies@, e.id@) is None);
                assert(eligible_first(ents@.take(j as int), e.id@) is None);
                assert(eligible_first(ents@.take(j + 1), e.id@) == Some(e.entity_type));
            }
            let ghost pv = p;
            put_policy(&mut v, p);
            proof {
                assert(policy_at(v@, e.id@) == Some(pv));
            }
        }
        proof {
            assert forall|t: Seq<char>| #[trigger] policy_at(v@, t) == policy_at(v@, t) && match configured_last(policies@, t) {
                Some((name, tab)) => policy_at(v@, t) matches Some(x) && policy_ok(name, tab, x),
                None => match eligible_first(ents@.take(j + 1), t) {
                    Some(kind) => policy_at(v@, t) matches Some(x) && x.entity_id@ == t && x.entity_kind == Some(kind)
                        && match section_table(section, "default"@) {
                        Some(d) => policy_settings_ok(d, x),
                        None => platform_settings(x),
                    },
                    None => policy_at(v@, t) is None,
                },
            } by {
                assert(policy_at(before, t) == policy_at(before, t));
                if t != e.id@ {
                    assert(eligible_first(ents@.take(j + 1), t) == eligible_first(ents@.take(j as int), t));
                } else if !(eligible && !known) {
                    assert(v@ == before);
                    if eligible {
                        assert(policy_at(before, t) is Some);
                    }
                }
            }
        }
        j = j + 1;
    }
    assert(ents@.take(ents.len() as int) =~= ents@);
    proof {
        assert forall|t: Seq<char>| #[trigger] expected_policy(section, registry.entities@, t, policy_at(v@, t)) by {
            assert(policy_at(v@, t) == policy_at(v@, t));
        }
    }
    v
}

/// The order a step takes when it gives none: its position counted from 1
/// (through a 32-bit conversion that wraps).
pub open spec fn default_step_order(i: int) -> u32 {
    if (i as u32) == u32::MAX {
        0
    } else {
        ((i as u32) + 1) as u32
    }
}

/// The step a step table describes: each setting, or its default.
pub open spec fn step_ok(t: Seq<(String, ConfigValue)>, default_order: u32, s: PlaybookStep) -> bool {
    &&& s.order == match get_int(entry(t, "order"@)) {
        Some(n) => n as u32,
        None => default_order,
    }
    &&& s.description@ == match get_str(entry(t, "description"@)) {
        Some(d) => d,
        None => "recovery step"@,
    }
    &&& match get_str(entry(t, "strategy"@)) {
        Some(x) => parses_to(x, s.strategy),
        None => s.strategy == OrchestratorStrategy::Retry,
    }
    &&& (if get_int(entry(t, "escalation_level"@)) matches Some(x) && (x as u8) <= 8 {
        level_number_ok(get_int(entry(t, "escalation_level"@)), s.escalation_level)
    } else {
        s.escalation_level == s.strategy.spec_default_level()
    })
    &&& s.timeout_secs == match get_int(entry(t, "timeout_secs"@)) {
        Some(n) => n as u64,
        None => 30u64,
    }
    &&& s.requires_validation == match get_bool(entry(t, "requires_validation"@)) {
        Some(b) => b,
        None => true,
    }
}

/// The steps are those of the step tables among the items, in order, each
/// with its position as default order.
pub open spec fn steps_match(items: Seq<ConfigValue>, steps: Seq<PlaybookStep>) -> bool
    decreases items.len(),
{
    if items.len() == 0 {
        steps.len() == 0
    } else {
        match items.last() {
            ConfigValue::Table(t) => steps.len() > 0 && steps_match(items.drop_last(), steps.drop_last()) && step_ok(
                t@,
                default_step_order(items.len() - 1),
                steps.last(),
            ),
            _ => steps_match(items.drop_last(), steps),
        }
    }
}

/// The kinds are those named by the string items that name a kind, in
/// order.
pub open spec fn kinds_match(items: Seq<ConfigValue>, kinds: Seq<EntityKind>) -> bool
    decreases items.len(),
{
    if items.len() == 0 {
        kinds.len() == 0
    } else {
        match items.last() {
            ConfigValue::Str(x) => if exists|k: EntityKind| #[trigger] k.spec_as_str() == x@ {
                kinds.len() > 0 && kinds_match(items.drop_last(), kinds.drop_last()) && kinds.last().spec_as_str() == x@
            } else {
                kinds_match(items.drop_last(), kinds)
            },
            _ => kinds_match(items.drop_last(), kinds),
        }
    }
}

/// The items of the array under `key`, or none.
pub open spec fn array_items(t: Seq<(String, ConfigValue)>, key: Seq<char>) -> Seq<ConfigValue> {
    match get_array(entry(t, key)) {
        Some(a) => a,
        None => Seq::empty(),
    }
}

/// The playbook a playbook table describes.
pub open spec fn playbook_ok(t: Seq<(String, ConfigValue)>, p: RecoveryPlaybook) -> bool {
    &&& get_str(entry(t, "name"@)) == Some(p.name@)
    &&& p.version@ == match get_str(entry(t, "version"@)) {
        Some(v) => v,
        None => "1.0.0"@,
    }
    &&& p.description@ == match get_str(entry(t, "description"@)) {
        Some(v) => v,
        None => Seq::<char>::empty(),
    }
    &&& p.trigger@ == match get_str(entry(t, "trigger"@)) {
        Some(v) => v,
        None => Seq::<char>::empty(),
    }
    &&& kinds_match(array_items(t, "entity_kinds"@), p.entity_kinds@)
    &&& steps_match(array_items(t, "steps"@), p.steps@)
}

/// A value describes a playbook: it is a table with a string name.
pub open spec fn gives_playbook(v: ConfigValue) -> bool {
    match v {
        ConfigValue::Table(t) => get_str(entry(t@, "name"@)) is Some,
        _ => false,
    }
}

/// The step of a step table.
pub fn parse_playbook_step(t: &Vec<(String, ConfigValue)>, default_order: u32) -> (s: PlaybookStep)
    ensures
        step_ok(t@, default_order, s),
{
    #[verifier::truncate]
    let order: u32 = match lookup_int(t, "order") {
        Some(n) => n as u32,
        None => default_order,
    };
    let description = match lookup_str(t, "description") {
        Some(d) => d.to_owned(),
        None => "recovery step".to_owned(),
    };
    let strategy = match lookup_str(t, "strategy") {
        Some(x) => parse_strategy(x),
        None => OrchestratorStrategy::Retry,
    };
    let escalation_level = match level_of(lookup_int(t, "escalation_level")) {
        Some(l) => l,
        None => strategy.default_escalation_level(),
    };
    #[verifier::truncate]
    let timeout_secs: u64 = match lookup_int(t, "timeout_secs") {
        Some(n) => n as u64,
        None => 30,
    };
    let requires_validation = match lookup_bool(t, "requires_validation") {
        Some(b) => b,
        None => true,
    };
    PlaybookStep { order, description, strategy, escalation_level, timeout_secs, requires_validation }
}

/// The playbook of a playbook table; `None` when the value is no table or
/// has no string name.
pub fn parse_playbook_value(value: &ConfigValue) -> (r: Option<RecoveryPlaybook>)
    ensures
        match r {
            Some(p) => gives_playbook(*value) && match value {
                ConfigValue::Table(t) => playbook_ok(t@, p),
                _ => false,
            },
            None => !gives_playbook(*value),
        },
{
    let t = match value {
        ConfigValue::Table(t) => t,
        _ => {
            return None;
        },
    };
    let name = match lookup_str(t, "name") {
        Some(n) => n.to_owned(),
        None => {
            return None;
        },
    };
    let version = match lookup_str(t, "version") {
        Some(v) => v.to_owned(),
        None => "1.0.0".to_owned(),
    };
    let description = match lookup_str(t, "description") {
        Some(v) => v.to_owned(),
        None => String::new(),
    };
    let trigger = match lookup_str(t, "trigger") {
        Some(v) => v.to_owned(),
        None => String::new(),
    };
    let mut kinds: Vec<EntityKind> = Vec::new();
    match lookup(t, "entity_kinds") {
        Some(ConfigValue::Array(a)) => {
            let mut i: usize = 0;
            assert(a@.take(0) =~= Seq::<ConfigValue>::empty());
            while i < a.len()
                invariant
                    i <= a.len(),
                    kinds_match(a@.take(i as int), kinds@),
                decreases a.len() - i,
            {
                assert(a@.take(i + 1).drop_last() =~= a@.take(i as int));
                assert(a@.take(i + 1).last() == a@[i as int]);
                let ghost before = kinds@;
                match &a[i] {
                    ConfigValue::Str(x) => match EntityKind::parse_name(x.as_str()) {
                        Some(k) => {
                            kinds.push(k);
                            assert(kinds@.drop_last() =~= before);
                        },
                        None => {},
                    },
                    _ => {},
                }
                i = i + 1;
            }
            assert(a@.take(a.len() as int) =~= a@);
        },
        _ => {},
    }
    let mut steps: Vec<PlaybookStep> = Vec::new();
    match lookup(t, "steps") {
        Some(ConfigValue::Array(a)) => {
            let mut i: usize = 0;
            assert(a@.take(0) =~= Seq::<ConfigValue>::empty());
            while i < a.len()
                invariant
                    i <= a.len(),
                    steps_match(a@.take(i as int), steps@),
                decreases a.len() - i,
            {
                assert(a@.take(i + 1).drop_last() =~= a@.take(i as int));
                assert(a@.take(i + 1).last() == a@[i as int]);
                let ghost before = steps@;
                match &a[i] {
                    ConfigValue::Table(st) => {
                        #[verifier::truncate]
                        let o = i as u32;
                        let d: u32 = if o == u32::MAX { 0 } else { o + 1 };
                        let step = parse_playbook_step(st, d);
                        steps.push(step);
                        assert(steps@.drop_last() =~= before);
                    },
                    _ => {},
                }
                i = i + 1;
            }
            assert(a@.take(a.len() as int) =~= a@);
        },
        _ => {},
    }
    Some(RecoveryPlaybook { name, version, description, trigger, steps, entity_kinds: kinds })
}

/// The configured playbooks are those of the items that describe one, in
/// order.
pub open spec fn playbooks_match(items: Seq<ConfigValue>, pbs: Seq<RecoveryPlaybook>) -> bool
    decreases items.len(),
{
    if items.len() == 0 {
        pbs.len() == 0
    } else if gives_playbook(items.last()) {
        pbs.len() > 0 && playbooks_match(items.drop_last(), pbs.drop_last()) && match items.last() {
            ConfigValue::Table(t) => playbook_ok(t@, pbs.last()),
            _ => false,
        }
    } else {
        playbooks_match(items.drop_last(), pbs)
    }
}

/// The playbooks of the section's `playbooks` array, in order.
pub fn configured_playbooks(section: Option<&Vec<(String, ConfigValue)>>) -> (r: Vec<RecoveryPlaybook>)
    ensures
        playbooks_match(
            match section {
                Some(sec) => array_items(sec@, "playbooks"@),
                None => Seq::empty(),
            },
            r@,
        ),
{
    let mut out: Vec<RecoveryPlaybook> = Vec::new();
    match section {
        Some(sec) => match lookup(sec, "playbooks") {
            Some(ConfigValue::Array(a)) => {
                let mut i: usize = 0;
                assert(a@.take(0) =~= Seq::<ConfigValue>::empty());
                while i < a.len()
                    invariant
                        i <= a.len(),
                        playbooks_match(a@.take(i as int), out@),
                    decreases a.len() - i,
                {
                    assert(a@.take(i + 1).drop_last() =~= a@.take(i as int));
                    assert(a@.take(i + 1).last() == a@[i as int]);
                    let ghost before = out@;
                    match parse_playbook_value(&a[i]) {
                        Some(pb) => {
                            out.push(pb);
                            assert(out@.drop_last() =~= before);
                        },
                        None => {},
                    }
                    i = i + 1;
                }
                assert(a@.take(a.len() as int) =~= a@);
            },
            _ => {},
        },
        None => {},
    }
    out
}

/// The playbooks in force: the built-in ones merged with those the section
/// configures (a configured playbook replaces the one of its name), sorted
/// by name.
pub fn load_playbooks_from(section: Option<&Vec<(String, ConfigValue)>>) -> (r: Vec<RecoveryPlaybook>)
    ensures
        exists|c: Seq<RecoveryPlaybook>, d: Seq<RecoveryPlaybook>|
            playbooks_match(
                match section {
                    Some(sec) => array_items(sec@, "playbooks"@),
                    None => Seq::empty(),
                },
                c,
            ) && views(d) == default_playbook_views() && r@ == sort_by_name(#[trigger] merge_named(d, c)),
{
    let configured = configured_playbooks(section);
    let ghost c = configured@;
    let r = load_playbooks(configured);
    proof {
        let d = choose|d: Seq<RecoveryPlaybook>|
            views(d) == default_playbook_views() && r@ == sort_by_name(#[trigger] merge_named(d, c));
        assert(r@ == sort_by_name(merge_named(d, c)));
    }
    r
}

proof fn lemma_eligible_first_found(ents: Seq<crate::recovery::entity::EntityRecord>, i: int)
    requires
        0 <= i < ents.len(),
        ents[i].entity_type.spec_is_recoverable(),
    ensures
        eligible_first(ents, ents[i].id@) is Some,
    decreases ents.len(),
{
    if i < ents.len() - 1 {
        lemma_eligible_first_found(ents.drop_last(), i);
    }
}

/// Every entity that may be recovered (all but incidents and hazards) has
/// a policy, whatever the section configures.
pub proof fn law_every_recoverable_entity_has_policy(
    section: Option<&Vec<(String, ConfigValue)>>,
    ents: Seq<crate::recovery::entity::EntityRecord>,
    policies: Seq<EntityRecoveryPolicy>,
)
    requires
        forall|t: Seq<char>| #[trigger] expected_policy(section, ents, t, policy_at(policies, t)),
    ensures
        forall|i: int|
            0 <= i < ents.len() && (#[trigger] ents[i]).entity_type.spec_is_recoverable() ==> policy_at(
                policies,
                ents[i].id@,
            ) is Some,
{
    assert forall|i: int|
        0 <= i < ents.len() && (#[trigger] ents[i]).entity_type.spec_is_recoverable() implies policy_at(
            policies,
            ents[i].id@,
        ) is Some by {
        lemma_eligible_first_found(ents, i);
        assert(expected_policy(section, ents, ents[i].id@, policy_at(policies, ents[i].id@)));
    }
}
} // verus!
