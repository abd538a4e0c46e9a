//! Recovery playbooks: versioned, reusable multi-step recovery workflows,
//! their lookup by name and by failure trigger, and their merging with
//! configured and plugin-contributed playbooks.
use vstd::prelude::*;
use crate::text::{ascii_lower, seq_contains, seq_lt, str_contains, str_eq, str_lt, to_ascii_lower,
    lemma_seq_lt_transitive, lemma_seq_lt_irreflexive, concat2};
use crate::recovery::entity::EntityKind;
use crate::recovery::plugin::{of_kind, PluginRecoveryExtension, RecoveryPluginRegistry,
    PLUGIN_KIND_PLAYBOOK};
use crate::recovery::types::{OrchestratorStrategy, RecoveryEscalationLevel};

verus! {

broadcast use vstd::seq_lib::group_to_multiset_ensures;

/// Single step in a recovery playbook.
#[derive(Debug, Clone, PartialEq, Eq)]
pub struct PlaybookStep {
    pub order: u32,
    pub description: String,
    pub strategy: OrchestratorStrategy,
    pub escalation_level: RecoveryEscalationLevel,
    pub timeout_secs: u64,
    pub requires_validation: bool,
}

impl View for PlaybookStep {
    type V = (u32, Seq<char>, OrchestratorStrategy, RecoveryEscalationLevel, u64, bool);

    open spec fn view(&self) -> Self::V {
        (
            self.order,
            self.description@,
            self.strategy,
            self.escalation_level,
            self.timeout_secs,
            self.requires_validation,
        )
    }
}

/// Recovery playbook — versioned, reusable multi-step recovery workflow.
#[derive(Debug, Clone, PartialEq, Eq)]
pub struct RecoveryPlaybook {
    pub name: String,
    pub version: String,
    pub description: String,
    pub trigger: String,
    pub steps: Vec<PlaybookStep>,
    pub entity_kinds: Vec<EntityKind>,
}

/// A step's view.
pub open spec fn step_view(s: PlaybookStep) -> (
    u32,
    Seq<char>,
    OrchestratorStrategy,
    RecoveryEscalationLevel,
    u64,
    bool,
) {
    s@
}

impl View for RecoveryPlaybook {
    type V = (
        Seq<char>,
        Seq<char>,
        Seq<char>,
        Seq<char>,
        Seq<(u32, Seq<char>, OrchestratorStrategy, RecoveryEscalationLevel, u64, bool)>,
        Seq<EntityKind>,
    );

    open spec fn view(&self) -> Self::V {
        (
            self.name@,
            self.version@,
            self.description@,
            self.trigger@,
            self.steps@.map_values(|s: PlaybookStep| s@),
            self.entity_kinds@,
        )
    }
}

/// The views of a list of playbooks.
pub open spec fn views(s: Seq<RecoveryPlaybook>) -> Seq<
    (
        Seq<char>,
        Seq<char>,
        Seq<char>,
        Seq<char>,
        Seq<(u32, Seq<char>, OrchestratorStrategy, RecoveryEscalationLevel, u64, bool)>,
        Seq<EntityKind>,
    ),
> {
    s.map_values(|p: RecoveryPlaybook| p@)
}

fn step(
    order: u32,
    description: &str,
    strategy: OrchestratorStrategy,
    escalation_level: RecoveryEscalationLevel,
    timeout_secs: u64,
    requires_validation: bool,
) -> (r: PlaybookStep)
    ensures
        r@ == (order, description@, strategy, escalation_level, timeout_secs, requires_validation),
{
    PlaybookStep {
        order,
        description: description.to_owned(),
        strategy,
        escalation_level,
        timeout_secs,
        requires_validation,
    }
}

fn playbook(
    name: &str,
    description: &str,
    trigger: &str,
    entity_kinds: Vec<EntityKind>,
    steps: Vec<PlaybookStep>,
) -> (r: RecoveryPlaybook)
    ensures
        r@ == (name@, "1.0.0"@, description@, trigger@, steps@.map_values(
            |s: PlaybookStep| s@,
        ), entity_kinds@),
{
    RecoveryPlaybook {
        name: name.to_owned(),
        version: "1.0.0".to_owned(),
        description: description.to_owned(),
        trigger: trigger.to_owned(),
        steps,
        entity_kinds,
    }
}

/// The built-in playbooks, in the order they are shipped.
pub open spec fn default_playbook_views() -> Seq<
    (
        Seq<char>,
        Seq<char>,
        Seq<char>,
        Seq<char>,
        Seq<(u32, Seq<char>, OrchestratorStrategy, RecoveryEscalationLevel, u64, bool)>,
        Seq<EntityKind>,
    ),
> {
    seq![
        (
            "battery_low"@,
            "1.0.0"@,
            "Battery below threshold — navigate to charger, assign backup, transfer mission"@,
            "battery"@,
            seq![
            (1u32, "Navigate to nearest charger"@, OrchestratorStrategy::GracefulDegradation, RecoveryEscalationLevel::Level0Retry, 120u64, false),
            (2u32, "Assign backup robot from fleet"@, OrchestratorStrategy::DelegateMission, RecoveryEscalationLevel::Level5MissionReassign, 60u64, true),
            (3u32, "Transfer active mission to backup"@, OrchestratorStrategy::TransferMission, RecoveryEscalationLevel::Level5MissionReassign, 90u64, true),
            (4u32, "Resume mission on backup robot"@, OrchestratorStrategy::RestartRobot, RecoveryEscalationLevel::Level4RecoverRobot, 30u64, true),
            ],
            seq![EntityKind::Robot, EntityKind::Drone, EntityKind::Vehicle],
        ),
        (
            "sensor_failure"@,
            "1.0.0"@,
            "Sensor failure — recalibrate, switch redundant sensor, degrade gracefully"@,
            "sensor"@,
            seq![
            (1u32, "Retry sensor read"@, OrchestratorStrategy::Retry, RecoveryEscalationLevel::Level0Retry, 10u64, false),
            (2u32, "Reinitialize sensor device"@, OrchestratorStrategy::Reinitialize, RecoveryEscalationLevel::Level3RecoverDevice, 30u64, true),
            (3u32, "Switch to redundant sensor"@, OrchestratorStrategy::SwitchSensor, RecoveryEscalationLevel::Level3RecoverDevice, 15u64, true),
            (4u32, "Enter degraded mode"@, OrchestratorStrategy::GracefulDegradation, RecoveryEscalationLevel::Level1RestartComponent, 5u64, true),
            ],
            seq![EntityKind::Sensor, EntityKind::Camera, EntityKind::Gps],
        ),
        (
            "connectivity_loss"@,
            "1.0.0"@,
            "Connectivity loss — reconnect, switch gateway, switch network"@,
            "connectivity"@,
            seq![
            (1u32, "Retry connection"@, OrchestratorStrategy::Retry, RecoveryEscalationLevel::Level0Retry, 15u64, false),
            (2u32, "Reconnect transport"@, OrchestratorStrategy::Reconnect, RecoveryEscalationLevel::Level3RecoverDevice, 30u64, true),
            (3u32, "Switch to backup gateway"@, OrchestratorStrategy::SwitchGateway, RecoveryEscalationLevel::Level3RecoverDevice, 45u64, true),
            ],
            seq![EntityKind::Gateway, EntityKind::Device, EntityKind::Robot],
        ),
        (
            "fleet_member_loss"@,
            "1.0.0"@,
            "Fleet member loss — redistribute tasks, reassign missions"@,
            "fleet"@,
            seq![
            (1u32, "Detect failed fleet member"@, OrchestratorStrategy::Retry, RecoveryEscalationLevel::Level0Retry, 10u64, false),
            (2u32, "Redistribute swarm tasks"@, OrchestratorStrategy::RestartFleet, RecoveryEscalationLevel::Level6FleetRedistribute, 60u64, true),
            (3u32, "Reassign missions to healthy members"@, OrchestratorStrategy::TransferMission, RecoveryEscalationLevel::Level5MissionReassign, 90u64, true),
            ],
            seq![EntityKind::Fleet, EntityKind::Swarm, EntityKind::Robot],
        ),
        (
            "mission_transfer"@,
            "1.0.0"@,
            "Robot failure during mission — delegate or takeover to backup"@,
            "mission"@,
            seq![
            (1u32, "Pause mission safely"@, OrchestratorStrategy::GracefulDegradation, RecoveryEscalationLevel::Level1RestartComponent, 15u64, true),
            (2u32, "Select backup operator or robot"@, OrchestratorStrategy::DelegateMission, RecoveryEscalationLevel::Level5MissionReassign, 30u64, true),
            (3u32, "Execute takeover with state transfer"@, OrchestratorStrategy::TakeoverMission, RecoveryEscalationLevel::Level5MissionReassign, 60u64, true),
            ],
            seq![EntityKind::Mission, EntityKind::Robot],
        ),
    ]
}

fn battery_low_playbook() -> (r: RecoveryPlaybook)
    ensures
        r@ == default_playbook_views()[0],
{
    let steps = vec![
        step(1, "Navigate to nearest charger", OrchestratorStrategy::GracefulDegradation,
            RecoveryEscalationLevel::Level0Retry, 120, false),
        step(2, "Assign backup robot from fleet", OrchestratorStrategy::DelegateMission,
            RecoveryEscalationLevel::Level5MissionReassign, 60, true),
        step(3, "Transfer active mission to backup", OrchestratorStrategy::TransferMission,
            RecoveryEscalationLevel::Level5MissionReassign, 90, true),
        step(4, "Resume mission on backup robot", OrchestratorStrategy::RestartRobot,
            RecoveryEscalationLevel::Level4RecoverRobot, 30, true),
    ];
    let r = playbook(
        "battery_low",
        "Battery below threshold — navigate to charger, assign backup, transfer mission",
        "battery",
        vec![EntityKind::Robot, EntityKind::Drone, EntityKind::Vehicle],
        steps,
    );
    assert(r@ =~~= default_playbook_views()[0]);
    r
}

fn sensor_failure_playbook() -> (r: RecoveryPlaybook)
    ensures
        r@ == default_playbook_views()[1],
{
    let steps = vec![
        step(1, "Retry sensor read", OrchestratorStrategy::Retry,
            RecoveryEscalationLevel::Level0Retry, 10, false),
        step(2, "Reinitialize sensor device", OrchestratorStrategy::Reinitialize,
            RecoveryEscalationLevel::Level3RecoverDevice, 30, true),
        step(3, "Switch to redundant sensor", OrchestratorStrategy::SwitchSensor,
            RecoveryEscalationLevel::Level3RecoverDevice, 15, true),
        step(4, "Enter degraded mode", OrchestratorStrategy::GracefulDegradation,
            RecoveryEscalationLevel::Level1RestartComponent, 5, true),
    ];
    let r = playbook(
        "sensor_failure",
        "Sensor failure — recalibrate, switch redundant sensor, degrade gracefully",
        "sensor",
        vec![EntityKind::Sensor, EntityKind::Camera, EntityKind::Gps],
        steps,
    );
    assert(r@ =~~= default_playbook_views()[1]);
    r
}

fn connectivity_loss_playbook() -> (r: RecoveryPlaybook)
    ensures
        r@ == default_playbook_views()[2],
{
    let steps = vec![
        step(1, "Retry connection", OrchestratorStrategy::Retry,
            RecoveryEscalationLevel::Level0Retry, 15, false),
        step(2, "Reconnect transport", OrchestratorStrategy::Reconnect,
            RecoveryEscalationLevel::Level3RecoverDevice, 30, true),
        step(3, "Switch to backup gateway", OrchestratorStrategy::SwitchGateway,
            RecoveryEscalationLevel::Level3RecoverDevice, 45, true),
    ];
    let r = playbook(
        "connectivity_loss",
        "Connectivity loss — reconnect, switch gateway, switch network",
        "connectivity",
        vec![EntityKind::Gateway, EntityKind::Device, EntityKind::Robot],
        steps,
    );
    assert(r@ =~~= default_playbook_views()[2]);
    r
}

fn fleet_member_loss_playbook() -> (r: RecoveryPlaybook)
    ensures
        r@ == default_playbook_views()[3],
{
    let steps = vec![
        step(1, "Detect failed fleet member", OrchestratorStrategy::Retry,
            RecoveryEscalationLevel::Level0Retry, 10, false),
        step(2, "Redistribute swarm tasks", OrchestratorStrategy::RestartFleet,
            RecoveryEscalationLevel::Level6FleetRedistribute, 60, true),
        step(3, "Reassign missions to healthy members", OrchestratorStrategy::TransferMission,
            RecoveryEscalationLevel::Level5MissionReassign, 90, true),
    ];
    let r = playbook(
        "fleet_member_loss",
        "Fleet member loss — redistribute tasks, reassign missions",
        "fleet",
        vec![EntityKind::Fleet, EntityKind::Swarm, EntityKind::Robot],
        steps,
    );
    assert(r@ =~~= default_playbook_views()[3]);
    r
}

fn mission_transfer_playbook() -> (r: RecoveryPlaybook)
    ensures
        r@ == default_playbook_views()[4],
{
    let steps = vec![
        step(1, "Pause mission safely", OrchestratorStrategy::GracefulDegradation,
            RecoveryEscalationLevel::Level1RestartComponent, 15, true),
        step(2, "Select backup operator or robot", OrchestratorStrategy::DelegateMission,
            RecoveryEscalationLevel::Level5MissionReassign, 30, true),
        step(3, "Execute takeover with state transfer", OrchestratorStrategy::TakeoverMission,
            RecoveryEscalationLevel::Level5MissionReassign, 60, true),
    ];
    let r = playbook(
        "mission_transfer",
        "Robot failure during mission — delegate or takeover to backup",
        "mission",
        vec![EntityKind::Mission, EntityKind::Robot],
        steps,
    );
    assert(r@ =~~= default_playbook_views()[4]);
    r
}

/// Built-in recovery playbooks shipped with the orchestrator.
pub fn default_playbooks() -> (r: Vec<RecoveryPlaybook>)
    ensures
        views(r@) == default_playbook_views(),
{
    let r = vec![
        battery_low_playbook(),
        sensor_failure_playbook(),
        connectivity_loss_playbook(),
        fleet_member_loss_playbook(),
        mission_transfer_playbook(),
    ];
    assert(views(r@) =~= default_playbook_views());
    r
}

/// `s[i]` is the first playbook named `name`.
pub open spec fn first_named(s: Seq<RecoveryPlaybook>, name: Seq<char>, i: int) -> bool {
    0 <= i < s.len() && s[i].name@ == name && forall|j: int|
        0 <= j < i ==> (#[trigger] s[j]).name@ != name
}

/// Some playbook of `s` is named `name`.
pub open spec fn has_playbook(s: Seq<RecoveryPlaybook>, name: Seq<char>) -> bool {
    exists|i: int| 0 <= i < s.len() && (#[trigger] s[i]).name@ == name
}

/// Find a playbook by name: the first one with that name.
pub fn find_playbook<'a>(playbooks: &'a [RecoveryPlaybook], name: &str) -> (r: Option<
    &'a RecoveryPlaybook,
>)
    ensures
        match r {
            Some(p) => exists|i: int| first_named(playbooks@, name@, i) && *p == playbooks@[i],
            None => !has_playbook(playbooks@, name@),
        },
{
    let mut i: usize = 0;
    while i < playbooks.len()
        invariant
            i <= playbooks.len(),
            forall|j: int| 0 <= j < i ==> (#[trigger] playbooks@[j]).name@ != name@,
        decreases playbooks.len() - i,
    {
        if str_eq(playbooks[i].name.as_str(), name) {
            assert(first_named(playbooks@, name@, i as int));
            return Some(&playbooks[i]);
        }
        i = i + 1;
    }
    None
}

/// A playbook answers a failure when, ignoring ASCII case, its trigger
/// occurs in the failure text or the failure text occurs in its trigger.
pub open spec fn playbook_matches(p: RecoveryPlaybook, failure: Seq<char>) -> bool {
    let t = ascii_lower(p.trigger@);
    let f = ascii_lower(failure);
    seq_contains(t, f) || seq_contains(f, t)
}

/// The playbooks of `s` that answer a failure, in their order.
pub open spec fn matching(s: Seq<RecoveryPlaybook>, failure: Seq<char>) -> Seq<RecoveryPlaybook>
    decreases s.len(),
{
    if s.len() == 0 {
        Seq::empty()
    } else {
        let rest = matching(s.drop_last(), failure);
        if playbook_matches(s.last(), failure) {
            rest.push(s.last())
        } else {
            rest
        }
    }
}

/// The playbooks that answer a failure trigger, in their order.
pub fn match_playbooks<'a>(playbooks: &'a [RecoveryPlaybook], failure: &str) -> (r: Vec<
    &'a RecoveryPlaybook,
>)
    ensures
        r@.len() == matching(playbooks@, failure@).len(),
        forall|k: int| 0 <= k < r@.len() ==> *(#[trigger] r@[k]) == matching(playbooks@, failure@)[k],
{
    let failure_lower = to_ascii_lower(failure);
    let mut out: Vec<&'a RecoveryPlaybook> = Vec::new();
    let mut i: usize = 0;
    while i < playbooks.len()
        invariant
            i <= playbooks.len(),
            failure_lower@ == ascii_lower(failure@),
            out@.len() == matching(playbooks@.subrange(0, i as int), failure@).len(),
            forall|k: int|
                0 <= k < out@.len() ==> *(#[trigger] out@[k]) == matching(
                    playbooks@.subrange(0, i as int),
                    failure@,
                )[k],
        decreases playbooks.len() - i,
    {
        let p = &playbooks[i];
        assert(playbooks@.subrange(0, i + 1).drop_last() =~= playbooks@.subrange(0, i as int));
        let trigger_lower = to_ascii_lower(p.trigger.as_str());
        if str_contains(trigger_lower.as_str(), failure_lower.as_str()) || str_contains(
            failure_lower.as_str(),
            trigger_lower.as_str(),
        ) {
            out.push(p);
        }
        i = i + 1;
    }
    assert(playbooks@.subrange(0, playbooks.len() as int) =~= playbooks@);
    out
}

/// Names never decrease along `s`.
pub open spec fn sorted_by_name(s: Seq<RecoveryPlaybook>) -> bool {
    forall|i: int, j: int| 0 <= i < j < s.len() ==> !seq_lt(#[trigger] s[j].name@, #[trigger] s[i].name@)
}

/// Insert `x` into `s` after every playbook whose name does not sort after
/// `x`'s (a stable insertion).
pub open spec fn insert_by_name(s: Seq<RecoveryPlaybook>, x: RecoveryPlaybook) -> Seq<
    RecoveryPlaybook,
>
    decreases s.len(),
{
    if s.len() == 0 {
        seq![x]
    } else if seq_lt(x.name@, s[0].name@) {
        seq![x] + s
    } else {
        seq![s[0]] + insert_by_name(s.drop_first(), x)
    }
}

/// `s` stably sorted by name (the order `sort_by` on names gives).
pub open spec fn sort_by_name(s: Seq<RecoveryPlaybook>) -> Seq<RecoveryPlaybook>
    decreases s.len(),
{
    if s.len() == 0 {
        Seq::empty()
    } else {
        insert_by_name(sort_by_name(s.drop_last()), s.last())
    }
}

/// Where `insert_by_name` puts `x`: after the first `p` playbooks.
pub open spec fn insert_point(s: Seq<RecoveryPlaybook>, x: RecoveryPlaybook, p: int) -> bool {
    &&& 0 <= p <= s.len()
    &&& forall|j: int| 0 <= j < p ==> !seq_lt(x.name@, (#[trigger] s[j]).name@)
    &&& p < s.len() ==> seq_lt(x.name@, s[p].name@)
}

proof fn lemma_insert_by_name_at(s: Seq<RecoveryPlaybook>, x: RecoveryPlaybook, p: int)
    requires
        insert_point(s, x, p),
    ensures
        insert_by_name(s, x) == s.insert(p, x),
    decreases s.len(),
{
    if s.len() == 0 {
        assert(s.insert(p, x) =~= seq![x]);
    } else if p == 0 {
        assert(s.insert(0, x) =~= seq![x] + s);
    } else {
        assert(!seq_lt(x.name@, s[0].name@));
        let t = s.drop_first();
        assert(insert_point(t, x, p - 1)) by {
            assert forall|j: int| 0 <= j < p - 1 implies !seq_lt(x.name@, (#[trigger] t[j]).name@) by {
                assert(t[j] == s[j + 1]);
            }
        }
        lemma_insert_by_name_at(t, x, p - 1);
        assert(seq![s[0]] + t.insert(p - 1, x) =~= s.insert(p, x));
    }
}

proof fn lemma_insert_point_exists(s: Seq<RecoveryPlaybook>, x: RecoveryPlaybook) -> (p: int)
    ensures
        insert_point(s, x, p),
        insert_by_name(s, x) == s.insert(p, x),
    decreases s.len(),
{
    if s.len() == 0 {
        assert(s.insert(0, x) =~= seq![x]);
        0
    } else if seq_lt(x.name@, s[0].name@) {
        assert(s.insert(0, x) =~= seq![x] + s);
        0
    } else {
        let t = s.drop_first();
        let q = lemma_insert_point_exists(t, x);
        assert(seq![s[0]] + t.insert(q, x) =~= s.insert(q + 1, x));
        assert forall|j: int| 0 <= j < q + 1 implies !seq_lt(x.name@, (#[trigger] s[j]).name@) by {
            if j > 0 {
                assert(s[j] == t[j - 1]);
            }
        }
        if q < t.len() {
            assert(s[q + 1] == t[q]);
        }
        q + 1
    }
}

proof fn lemma_insert_keeps_sorted(s: Seq<RecoveryPlaybook>, x: RecoveryPlaybook)
    requires
        sorted_by_name(s),
    ensures
        sorted_by_name(insert_by_name(s, x)),
        insert_by_name(s, x).to_multiset() == s.to_multiset().insert(x),
{
    let p = lemma_insert_point_exists(s, x);
    let r = s.insert(p, x);
    assert forall|i: int, j: int| 0 <= i < j < r.len() implies !seq_lt(
        #[trigger] r[j].name@,
        #[trigger] r[i].name@,
    ) by {
        if j < p {
            assert(r[i] == s[i] && r[j] == s[j]);
        } else if j == p {
            assert(r[i] == s[i]);
        } else if i < p {
            assert(r[i] == s[i] && r[j] == s[j - 1]);
        } else if i == p {
            assert(r[j] == s[j - 1]);
            assert(p < s.len());
            if seq_lt(s[j - 1].name@, x.name@) {
                lemma_seq_lt_transitive(s[j - 1].name@, x.name@, s[p].name@);
                if p == j - 1 {
                    lemma_seq_lt_irreflexive(s[p].name@);
                } else {
                    assert(!seq_lt(s[j - 1].name@, s[p].name@));
                }
            }
        } else {
            assert(r[i] == s[i - 1] && r[j] == s[j - 1]);
        }
    }
}

/// Sorting by name gives playbooks whose names never decrease, and the
/// same playbooks as before, each as often.
pub proof fn law_sort_by_name_sorts(s: Seq<RecoveryPlaybook>)
    ensures
        sorted_by_name(sort_by_name(s)),
        sort_by_name(s).to_multiset() == s.to_multiset(),
    decreases s.len(),
{
    if s.len() > 0 {
        law_sort_by_name_sorts(s.drop_last());
        lemma_insert_keeps_sorted(sort_by_name(s.drop_last()), s.last());
        assert(s.drop_last().push(s.last()) =~= s);
    }
}

fn insert_playbook_by_name(v: &mut Vec<RecoveryPlaybook>, x: RecoveryPlaybook)
    ensures
        final(v)@ == insert_by_name(old(v)@, x),
{
    let n = v.len();
    let mut p: usize = 0;
    while p < n
        invariant
            n == v.len(),
            v@ == old(v)@,
            p <= n,
            forall|j: int| 0 <= j < p ==> !seq_lt(x.name@, (#[trigger] v@[j]).name@),
        ensures
            p <= n,
            n == v.len(),
            v@ == old(v)@,
            forall|j: int| 0 <= j < p ==> !seq_lt(x.name@, (#[trigger] v@[j]).name@),
            p < n ==> seq_lt(x.name@, v@[p as int].name@),
        decreases n - p,
    {
        if str_lt(x.name.as_str(), v[p].name.as_str()) {
            break;
        }
        p = p + 1;
    }
    proof {
        lemma_insert_by_name_at(v@, x, p as int);
    }
    v.insert(p, x);
}

/// Stably sort playbooks by name.
pub fn sort_playbooks_by_name(v: Vec<RecoveryPlaybook>) -> (r: Vec<RecoveryPlaybook>)
    ensures
        r@ == sort_by_name(v@),
{
    let ghost s = v@;
    let mut rest = v;
    let mut out: Vec<RecoveryPlaybook> = Vec::new();
    let ghost mut k: int = 0;
    assert(s.take(0) =~= Seq::<RecoveryPlaybook>::empty());
    assert(s.skip(0) =~= s);
    while rest.len() > 0
        invariant
            0 <= k <= s.len(),
            rest@ == s.skip(k),
            out@ == sort_by_name(s.take(k)),
        decreases rest.len(),
    {
        let x = rest.remove(0);
        proof {
            assert(x == s[k]);
            assert(s.take(k + 1).drop_last() =~= s.take(k));
            assert(s.skip(k).drop_first() =~= s.skip(k + 1));
        }
        insert_playbook_by_name(&mut out, x);
        proof {
            k = k + 1;
        }
    }
    assert(s.take(k) =~= s);
    out
}

/// `m` with `x` in place of the first playbook of its name, or with `x`
/// added at the end when no playbook has its name.
pub open spec fn put_named(m: Seq<RecoveryPlaybook>, x: RecoveryPlaybook) -> Seq<RecoveryPlaybook> {
    if has_playbook(m, x.name@) {
        m.update(choose|i: int| first_named(m, x.name@, i), x)
    } else {
        m.push(x)
    }
}

/// `base` with each playbook of `extra`, in turn, put in by name.
pub open spec fn merge_named(base: Seq<RecoveryPlaybook>, extra: Seq<RecoveryPlaybook>) -> Seq<
    RecoveryPlaybook,
>
    decreases extra.len(),
{
    if extra.len() == 0 {
        base
    } else {
        put_named(merge_named(base, extra.drop_last()), extra.last())
    }
}

fn put_playbook(v: &mut Vec<RecoveryPlaybook>, x: RecoveryPlaybook)
    ensures
        final(v)@ == put_named(old(v)@, x),
{
    let mut i: usize = 0;
    while i < v.len()
        invariant
            i <= v.len(),
            v@ == old(v)@,
            forall|j: int| 0 <= j < i ==> (#[trigger] v@[j]).name@ != x.name@,
        decreases v.len() - i,
    {
        if str_eq(v[i].name.as_str(), x.name.as_str()) {
            proof {
                assert(first_named(v@, x.name@, i as int));
                let k = choose|k: int| first_named(v@, x.name@, k);
                if k < i {
                    assert(v@[k].name@ != x.name@);
                } else if k > i {
                    assert(v@[i as int].name@ != x.name@);
                }
            }
            v.set(i, x);
            return;
        }
        i = i + 1;
    }
    v.push(x);
}

/// Merge configured playbooks into the built-in ones: a configured playbook
/// replaces the built-in (or earlier configured) one of the same name, or is
/// added; the result is sorted by name.
pub fn load_playbooks(configured: Vec<RecoveryPlaybook>) -> (r: Vec<RecoveryPlaybook>)
    ensures
        exists|d: Seq<RecoveryPlaybook>|
            views(d) == default_playbook_views() && r@ == sort_by_name(
                #[trigger] merge_named(d, configured@),
            ),
{
    let mut playbooks = default_playbooks();
    let ghost d = playbooks@;
    let ghost c = configured@;
    let mut rest = configured;
    let ghost mut k: int = 0;
    assert(c.take(0) =~= Seq::<RecoveryPlaybook>::empty());
    assert(c.skip(0) =~= c);
    while rest.len() > 0
        invariant
            0 <= k <= c.len(),
            rest@ == c.skip(k),
            playbooks@ == merge_named(d, c.take(k)),
        decreases rest.len(),
    {
        let x = rest.remove(0);
        proof {
            assert(x == c[k]);
            assert(c.take(k + 1).drop_last() =~= c.take(k));
            assert(c.skip(k).drop_first() =~= c.skip(k + 1));
        }
        put_playbook(&mut playbooks, x);
        proof {
            k = k + 1;
        }
    }
    assert(c.take(k) =~= c);
    let r = sort_playbooks_by_name(playbooks);
    assert(r@ == sort_by_name(merge_named(d, c)));
    r
}

/// The view of the playbook a plugin extension contributes.
pub open spec fn plugin_playbook_view(e: PluginRecoveryExtension) -> (
    Seq<char>,
    Seq<char>,
    Seq<char>,
    Seq<char>,
    Seq<(u32, Seq<char>, OrchestratorStrategy, RecoveryEscalationLevel, u64, bool)>,
    Seq<EntityKind>,
) {
    (
        e.name@,
        "plugin"@,
        e.description@,
        e.description@,
        seq![
            (
                1u32,
                "Plugin playbook: "@ + e.name@,
                OrchestratorStrategy::Custom(e.name),
                RecoveryEscalationLevel::Level3RecoverDevice,
                120u64,
                true,
            ),
        ],
        Seq::empty(),
    )
}

/// `m` with a playbook for each extension of `exts` whose name no playbook
/// had yet, in the extensions' order.
pub open spec fn add_plugin_playbooks(m: Seq<RecoveryPlaybook>, exts: Seq<PluginRecoveryExtension>) -> Seq<
    RecoveryPlaybook,
>
    decreases exts.len(),
{
    if exts.len() == 0 {
        m
    } else {
        let prev = add_plugin_playbooks(m, exts.drop_last());
        let e = exts.last();
        if has_playbook(prev, e.name@) {
            prev
        } else {
            prev.push(choose|p: RecoveryPlaybook| p@ == plugin_playbook_view(e))
        }
    }
}

fn plugin_playbook(e: &PluginRecoveryExtension) -> (r: RecoveryPlaybook)
    ensures
        r@ == plugin_playbook_view(*e),
{
    let name = e.name.clone();
    let s = PlaybookStep {
        order: 1,
        description: concat2("Plugin playbook: ", e.name.as_str()),
        strategy: OrchestratorStrategy::Custom(e.name.clone()),
        escalation_level: RecoveryEscalationLevel::Level3RecoverDevice,
        timeout_secs: 120,
        requires_validation: true,
    };
    let r = RecoveryPlaybook {
        name,
        version: "plugin".to_owned(),
        description: e.description.clone(),
        trigger: e.description.clone(),
        steps: vec![s],
        entity_kinds: Vec::new(),
    };
    assert(r@ =~~= plugin_playbook_view(*e));
    r
}

/// Add the playbooks that plugins contribute and that are not already
/// present by name, then sort all by name.
pub fn merge_plugin_playbooks(playbooks: &mut Vec<RecoveryPlaybook>, registry: &RecoveryPluginRegistry)
    ensures
        exists|m: Seq<RecoveryPlaybook>|
            views(m) == views(#[trigger] add_plugin_playbooks(
                old(playbooks)@,
                of_kind(registry@, "playbook"@),
            )) && final(playbooks)@ == sort_by_name(m),
{
    let exts = registry.list(PLUGIN_KIND_PLAYBOOK);
    proof {
        reveal_strlit("playbook");
    }
    let ghost xs = exts@;
    let mut work: Vec<RecoveryPlaybook> = Vec::new();
    std::mem::swap(&mut work, playbooks);
    let ghost base = work@;
    let mut k: usize = 0;
    assert(xs.take(0) =~= Seq::<PluginRecoveryExtension>::empty());
    while k < exts.len()
        invariant
            k <= exts.len(),
            xs == exts@,
            views(work@) == views(add_plugin_playbooks(base, xs.take(k as int))),
        decreases exts.len() - k,
    {
        let e = &exts[k];
        let ghost prev = add_plugin_playbooks(base, xs.take(k as int));
        assert(xs.take(k + 1).drop_last() =~= xs.take(k as int));
        assert(xs.take(k + 1).last() == *e);
        let mut present = false;
        let mut j: usize = 0;
        while j < work.len()
            invariant
                j <= work.len(),
                present == exists|t: int| 0 <= t < j && (#[trigger] work@[t]).name@ == e.name@,
            decreases work.len() - j,
        {
            if str_eq(work[j].name.as_str(), e.name.as_str()) {
                present = true;
            }
            j = j + 1;
        }
        proof {
            lemma_same_views_same_names(work@, prev, e.name@);
        }
        if !present {
            let p = plugin_playbook(e);
            let ghost w0 = work@;
            work.push(p);
            proof {
                let q = choose|q: RecoveryPlaybook| q@ == plugin_playbook_view(*e);
                assert(views(work@) =~= views(w0).push(p@));
                assert(views(prev.push(q)) =~= views(prev).push(q@));
            }
        }
        k = k + 1;
    }
    assert(xs.take(exts.len() as int) =~= xs);
    let r = sort_playbooks_by_name(work);
    *playbooks = r;
}

proof fn lemma_same_views_same_names(a: Seq<RecoveryPlaybook>, b: Seq<RecoveryPlaybook>, n: Seq<char>)
    requires
        views(a) == views(b),
    ensures
        has_playbook(a, n) <==> has_playbook(b, n),
        (exists|t: int| 0 <= t < a.len() && (#[trigger] a[t]).name@ == n) <==> has_playbook(b, n),
{
    assert(a.len() == views(a).len());
    assert(b.len() == views(b).len());
    if has_playbook(a, n) {
        let i = choose|i: int| 0 <= i < a.len() && (#[trigger] a[i]).name@ == n;
        assert(views(a)[i].0 == n);
        assert(b[i].name@ == views(b)[i].0);
    }
    if has_playbook(b, n) {
        let i = choose|i: int| 0 <= i < b.len() && (#[trigger] b[i]).name@ == n;
        assert(views(b)[i].0 == n);
        assert(a[i].name@ == views(a)[i].0);
    }
}

} // verus!
