//! Unified entity health: kind-appropriate diagnostics for any entity of
//! the registry, with device, fleet-member and child roll-ups.
use vstd::prelude::*;
use crate::text::{concat2, concat3, copy_texts, str_eq, texts};
use crate::readiness::gates::{join_texts, joined};
use crate::recovery::entity::{
    entity_named, get_named, EntityHealthStatus, EntityKind, EntityRecord, EntityRegistry,
    EntityRelationshipKind,
};

verus! {

/// Health diagnostic for an entity evaluation.
#[derive(Debug, Clone, PartialEq, Eq)]
pub struct EntityHealthDiagnostic {
    pub category: String,
    pub severity: String,
    pub message: String,
}

/// Lightweight health metrics rollup for an entity.
#[derive(Debug, Clone, Copy, PartialEq, Eq, Structural)]
pub struct EntityHealthMetrics {
    pub blocked_devices: u32,
    pub total_devices: u32,
    pub health_checks_passed: u32,
    pub health_checks_failed: u32,
}

impl Default for EntityHealthMetrics {
    fn default() -> (r: EntityHealthMetrics)
        ensures
            r == (EntityHealthMetrics {
                blocked_devices: 0,
                total_devices: 0,
                health_checks_passed: 0,
                health_checks_failed: 0,
            }),
    {
        EntityHealthMetrics { blocked_devices: 0, total_devices: 0, health_checks_passed: 0, health_checks_failed: 0 }
    }
}

/// Unified health report for any entity kind.
#[derive(Debug, Clone, PartialEq, Eq)]
pub struct EntityHealthReport {
    pub entity_id: String,
    pub entity_type: String,
    pub health_status: String,
    pub lifecycle_state: String,
    pub diagnostics: Vec<EntityHealthDiagnostic>,
    pub metrics: EntityHealthMetrics,
    pub children_checked: usize,
    pub sources: Vec<String>,
}

/// The readiness evaluation of one device of the device pool.
#[derive(Debug, Clone)]
pub struct DeviceHealth {
    pub id: String,
    pub readiness_blocked: bool,
    pub blockers: Vec<String>,
    pub firmware_supported: bool,
    pub calibration_expired: bool,
    pub quarantined: bool,
    pub quarantine_reasons: Vec<String>,
}

/// The outcome of one declared health check.
#[derive(Debug, Clone)]
pub struct HealthCheckResult {
    pub name: String,
    pub target: String,
    pub healthy: bool,
}

/// What entity health reads besides the registry: the entity's lifecycle
/// state, the evaluated device pool, the compute devices of robots in the
/// device tree, the operators' reported health, and, when a program is
/// given, its health checks and whether its runtime health is degraded.
#[derive(Debug, Clone)]
pub struct EntityHealthFacts {
    pub lifecycle_state: String,
    pub devices: Vec<DeviceHealth>,
    pub robot_compute_devices: Vec<(String, Vec<String>)>,
    pub humans: Vec<(String, Option<String>)>,
    pub health_checks: Option<(Vec<HealthCheckResult>, bool)>,
}

/// The view of a diagnostic: category, severity and message.
pub open spec fn diag(c: Seq<char>, s: Seq<char>, m: Seq<char>) -> (Seq<char>, Seq<char>, Seq<char>) {
    (c, s, m)
}

/// The views of a list of diagnostics.
pub open spec fn diag_views(d: Seq<EntityHealthDiagnostic>) -> Seq<(Seq<char>, Seq<char>, Seq<char>)> {
    d.map_values(|x: EntityHealthDiagnostic| (x.category@, x.severity@, x.message@))
}

fn push_diagnostic(diagnostics: &mut Vec<EntityHealthDiagnostic>, category: &str, severity: &str, message: String)
    ensures
        diag_views(final(diagnostics)@) == diag_views(old(diagnostics)@).push(diag(category@, severity@, message@)),
{
    let ghost before = diag_views(diagnostics@);
    diagnostics.push(
        EntityHealthDiagnostic { category: category.to_owned(), severity: severity.to_owned(), message },
    );
    assert(diag_views(diagnostics@) =~= before.push(diag(category@, severity@, message@)));
}

/// Device-like kinds, whose health comes from the device pool.
pub open spec fn spec_is_device_kind(k: EntityKind) -> bool {
    k is Device || k is Sensor || k is Actuator || k is Gateway || k is Controller || k is Camera || k is Gps
        || k is Compute
}

/// Whether an entity kind is device-like.
pub fn is_device_kind(k: EntityKind) -> (r: bool)
    ensures
        r == spec_is_device_kind(k),
{
    match k {
        EntityKind::Device | EntityKind::Sensor | EntityKind::Actuator | EntityKind::Gateway
        | EntityKind::Controller | EntityKind::Camera | EntityKind::Gps | EntityKind::Compute => true,
        _ => false,
    }
}

/// The diagnostic an entity's own health status gives, if any.
pub open spec fn snapshot_diags(e: EntityRecord) -> Seq<(Seq<char>, Seq<char>, Seq<char>)> {
    if e.health_status is Degraded || e.health_status is Warning {
        seq![diag("health"@, "warning"@, "Entity health is "@ + e.health_status.spec_as_str())]
    } else if e.health_status is Critical || e.health_status is Offline {
        seq![diag("health"@, "critical"@, "Entity health is "@ + e.health_status.spec_as_str())]
    } else {
        Seq::empty()
    }
}

fn snapshot_health_diagnostics(e: &EntityRecord, diagnostics: &mut Vec<EntityHealthDiagnostic>)
    ensures
        diag_views(final(diagnostics)@) == diag_views(old(diagnostics)@) + snapshot_diags(*e),
{
    let ghost before = diag_views(diagnostics@);
    match e.health_status {
        EntityHealthStatus::Degraded | EntityHealthStatus::Warning => {
            push_diagnostic(diagnostics, "health", "warning", concat2("Entity health is ", e.health_status.as_str()));
        },
        EntityHealthStatus::Critical | EntityHealthStatus::Offline => {
            push_diagnostic(diagnostics, "health", "critical", concat2("Entity health is ", e.health_status.as_str()));
        },
        _ => {},
    }
    assert(diag_views(diagnostics@) =~= before + snapshot_diags(*e));
}

/// The diagnostics of the impaired children of an entity, in order.
pub open spec fn child_diags(reg: EntityRegistry, children: Seq<String>) -> Seq<(Seq<char>, Seq<char>, Seq<char>)>
    decreases children.len(),
{
    if children.len() == 0 {
        Seq::empty()
    } else {
        let prev = child_diags(reg, children.drop_last());
        let c = children.last();
        match entity_named(reg, c@) {
            Some(ch) => if ch.health_status.is_impaired() {
                prev.push(diag("child"@, "warning"@, "Child '"@ + c@ + "' health is "@ + ch.health_status.spec_as_str()))
            } else {
                prev
            },
            None => prev,
        }
    }
}

fn rollup_child_health(e: &EntityRecord, registry: &EntityRegistry, diagnostics: &mut Vec<EntityHealthDiagnostic>) -> (r: usize)
    ensures
        r == e.children_ids@.len(),
        diag_views(final(diagnostics)@) == diag_views(old(diagnostics)@) + child_diags(*registry, e.children_ids@),
{
    let ghost start = diag_views(diagnostics@);
    let cs = &e.children_ids;
    let mut i: usize = 0;
    assert(cs@.take(0) =~= Seq::<String>::empty());
    assert(start + child_diags(*registry, cs@.take(0)) =~= start);
    while i < cs.len()
        invariant
            i <= cs.len(),
            diag_views(diagnostics@) == start + child_diags(*registry, cs@.take(i as int)),
        decreases cs.len() - i,
    {
        assert(cs@.take(i + 1).drop_last() =~= cs@.take(i as int));
        let ghost before = diag_views(diagnostics@);
        let got = get_named(registry, cs[i].as_str());
        match got {
            Some(child) => {
                let impaired = match child.health_status {
                    EntityHealthStatus::Degraded | EntityHealthStatus::Critical | EntityHealthStatus::Offline => true,
                    _ => false,
                };
                if impaired {
                    let mut m = concat3("Child '", cs[i].as_str(), "' health is ");
                    m.append(child.health_status.as_str());
                    push_diagnostic(diagnostics, "child", "warning", m);
                }
            },
            None => {},
        }
        assert(diag_views(diagnostics@) =~= start + child_diags(*registry, cs@.take(i + 1)));
        i = i + 1;
    }
    assert(cs@.take(cs.len() as int) =~= cs@);
    cs.len()
}

/// `humans[i]` is the first operator with this id.
pub open spec fn first_human(humans: Seq<(String, Option<String>)>, id: Seq<char>, i: int) -> bool {
    0 <= i < humans.len() && humans[i].0@ == id && forall|j: int| 0 <= j < i ==> (#[trigger] humans[j]).0@ != id
}

/// The operator-health diagnostic of a human entity, if any.
pub open spec fn human_diags(humans: Seq<(String, Option<String>)>, id: Seq<char>) -> Seq<(Seq<char>, Seq<char>, Seq<char>)> {
    if exists|i: int| first_human(humans, id, i) {
        match humans[choose|i: int| first_human(humans, id, i)].1 {
            Some(st) => if st@ != "healthy"@ && st@ != "ok"@ {
                seq![diag("human"@, "warning"@, "Operator health status is "@ + st@)]
            } else {
                Seq::empty()
            },
            None => Seq::empty(),
        }
    } else {
        Seq::empty()
    }
}

fn evaluate_human_health(id: &str, humans: &Vec<(String, Option<String>)>, diagnostics: &mut Vec<EntityHealthDiagnostic>)
    ensures
        diag_views(final(diagnostics)@) == diag_views(old(diagnostics)@) + human_diags(humans@, id@),
{
    let ghost start = diag_views(diagnostics@);
    let mut i: usize = 0;
    while i < humans.len()
        invariant
            i <= humans.len(),
            diagnostics@ == old(diagnostics)@,
            start == diag_views(old(diagnostics)@),
            forall|j: int| 0 <= j < i ==> (#[trigger] humans@[j]).0@ != id@,
        decreases humans.len() - i,
    {
        if str_eq(humans[i].0.as_str(), id) {
            proof {
                assert(first_human(humans@, id@, i as int));
                let k = choose|k: int| first_human(humans@, id@, k);
                if k < i {
                    assert(humans@[k].0@ != id@);
                } else if i < k {
                    assert(humans@[i as int].0@ != id@);
                }
                assert(k == i);
            }
            let ghost k = choose|k: int| first_human(humans@, id@, k);
            assert(k == i);
            match &humans[i].1 {
                Some(st) => {
                    assert(humans@[k].1 == Some(*st));
                    if !str_eq(st.as_str(), "healthy") && !str_eq(st.as_str(), "ok") {
                        push_diagnostic(diagnostics, "human", "warning", concat2("Operator health status is ", st.as_str()));
                        assert(diag_views(diagnostics@) =~= start + seq![diag("human"@, "warning"@, "Operator health status is "@ + st@)]);
                    } else {
                        assert(diag_views(diagnostics@) =~= start);
                    }
                },
                None => {
                    assert(humans@[k].1 is None);
                    assert(diag_views(diagnostics@) =~= start);
                },
            }
            assert(diag_views(diagnostics@) =~= start + human_diags(humans@, id@));
            return;
        }
        i = i + 1;
    }
    proof {
        if exists|k: int| first_human(humans@, id@, k) {
            let k = choose|k: int| first_human(humans@, id@, k);
            assert(humans@[k].0@ != id@);
        }
    }
    assert(diag_views(diagnostics@) =~= start + human_diags(humans@, id@));
}

/// The first device of the pool with this id.
pub open spec fn device_named(devices: Seq<DeviceHealth>, id: Seq<char>) -> Option<DeviceHealth> {
    if exists|i: int| 0 <= i < devices.len() && (#[trigger] devices[i]).id@ == id {
        let i = choose|i: int|
            0 <= i < devices.len() && (#[trigger] devices[i]).id@ == id && forall|j: int|
                0 <= j < i ==> (#[trigger] devices[j]).id@ != id;
        Some(devices[i])
    } else {
        None
    }
}

pub(crate) fn find_device<'a>(devices: &'a Vec<DeviceHealth>, id: &str) -> (r: Option<&'a DeviceHealth>)
    ensures
        match r {
            Some(d) => device_named(devices@, id@) == Some(*d),
            None => device_named(devices@, id@) is None,
        },
{
    let mut i: usize = 0;
    while i < devices.len()
        invariant
            i <= devices.len(),
            forall|j: int| 0 <= j < i ==> (#[trigger] devices@[j]).id@ != id@,
        decreases devices.len() - i,
    {
        if str_eq(devices[i].id.as_str(), id) {
            proof {
                let k = choose|k: int|
                    0 <= k < devices@.len() && (#[trigger] devices@[k]).id@ == id@ && forall|j: int|
                        0 <= j < k ==> (#[trigger] devices@[j]).id@ != id@;
                if k < i {
                    assert(devices@[k].id@ != id@);
                } else if i < k {
                    assert(devices@[i as int].id@ != id@);
                }
            }
            return Some(&devices[i]);
        }
        i = i + 1;
    }
    None
}

/// The diagnostics of a device entity from its pool evaluation, if it is
/// in the pool.
pub open spec fn device_diags(devices: Seq<DeviceHealth>, id: Seq<char>) -> Seq<(Seq<char>, Seq<char>, Seq<char>)> {
    match device_named(devices, id) {
        Some(d) => (if d.readiness_blocked {
            seq![diag("device"@, "error"@, "Device unhealthy: "@ + joined(texts(d.blockers@), ", "@))]
        } else {
            Seq::empty()
        }) + (if !d.firmware_supported {
            seq![diag("firmware"@, "warning"@, "Firmware unsupported"@)]
        } else {
            Seq::empty()
        }) + (if d.calibration_expired {
            seq![diag("calibration"@, "warning"@, "Calibration expired"@)]
        } else {
            Seq::empty()
        }),
        None => Seq::empty(),
    }
}


fn evaluate_device_health(id: &str, devices: &Vec<DeviceHealth>, diagnostics: &mut Vec<EntityHealthDiagnostic>)
    ensures
        diag_views(final(diagnostics)@) == diag_views(old(diagnostics)@) + device_diags(devices@, id@),
{
    let ghost start = diag_views(diagnostics@);
    match find_device(devices, id) {
        Some(d) => {
            if d.readiness_blocked {
                let j = join_texts(&d.blockers, ", ");
                push_diagnostic(diagnostics, "device", "error", concat2("Device unhealthy: ", j.as_str()));
            }
            let ghost a = diag_views(diagnostics@);
            if !d.firmware_supported {
                push_diagnostic(diagnostics, "firmware", "warning", "Firmware unsupported".to_owned());
            }
            let ghost b = diag_views(diagnostics@);
            if d.calibration_expired {
                push_diagnostic(diagnostics, "calibration", "warning", "Calibration expired".to_owned());
            }
            assert(diag_views(diagnostics@) =~= start + device_diags(devices@, id@));
        },
        None => {
            assert(diag_views(diagnostics@) =~= start + device_diags(devices@, id@));
        },
    }
}

/// The targets of the relationships an entity has of the given kinds, in
/// order.
pub open spec fn related_ids(
    rels: Seq<crate::recovery::entity::EntityRelationship>,
    from: Seq<char>,
    members: bool,
) -> Seq<Seq<char>>
    decreases rels.len(),
{
    if rels.len() == 0 {
        Seq::empty()
    } else {
        let prev = related_ids(rels.drop_last(), from, members);
        let r = rels.last();
        if r.from_id@ == from && (if members { member_link(r.kind) } else { device_link(r.kind) }) {
            prev.push(r.to_id@)
        } else {
            prev
        }
    }
}

/// Relationship kinds that attach a device to a robot.
pub open spec fn device_link(k: EntityRelationshipKind) -> bool {
    k is Contains || k is DependsOn || k is ConnectedTo
}

/// Relationship kinds that attach a member to a fleet.
pub open spec fn member_link(k: EntityRelationshipKind) -> bool {
    k is Contains || k is Owns
}

pub(crate) fn related(registry: &EntityRegistry, from: &str, members: bool) -> (r: Vec<String>)
    ensures
        texts(r@) == related_ids(registry.relationships@, from@, members),
{
    let rels = &registry.relationships;
    let mut out: Vec<String> = Vec::new();
    let mut i: usize = 0;
    assert(rels@.take(0) =~= Seq::<crate::recovery::entity::EntityRelationship>::empty());
    while i < rels.len()
        invariant
            i <= rels.len(),
            texts(out@) == related_ids(rels@.take(i as int), from@, members),
        decreases rels.len() - i,
    {
        assert(rels@.take(i + 1).drop_last() =~= rels@.take(i as int));
        let r = &rels[i];
        let wanted = if members {
            match r.kind {
                EntityRelationshipKind::Contains | EntityRelationshipKind::Owns => true,
                _ => false,
            }
        } else {
            match r.kind {
                EntityRelationshipKind::Contains | EntityRelationshipKind::DependsOn
                | EntityRelationshipKind::ConnectedTo => true,
                _ => false,
            }
        };
        if str_eq(r.from_id.as_str(), from) && wanted {
            let ghost before = texts(out@);
            out.push(r.to_id.clone());
            assert(texts(out@) =~= before.push(r.to_id@));
        }
        i = i + 1;
    }
    assert(rels@.take(rels.len() as int) =~= rels@);
    out
}

/// The device tree's compute devices of a robot: those of the first entry
/// for it, or none.
pub open spec fn compute_devices(trees: Seq<(String, Vec<String>)>, robot: Seq<char>) -> Seq<Seq<char>> {
    if exists|i: int| 0 <= i < trees.len() && (#[trigger] trees[i]).0@ == robot {
        texts(trees[choose|i: int| 0 <= i < trees.len() && (#[trigger] trees[i]).0@ == robot && forall|j: int|
            0 <= j < i ==> (#[trigger] trees[j]).0@ != robot].1@)
    } else {
        Seq::empty()
    }
}

/// The device ids of a robot: those related to it, else those of the
/// device tree.
pub open spec fn robot_device_ids(reg: EntityRegistry, facts: EntityHealthFacts, robot: Seq<char>) -> Seq<Seq<char>> {
    let rel = related_ids(reg.relationships@, robot, false);
    if rel.len() > 0 {
        rel
    } else {
        compute_devices(facts.robot_compute_devices@, robot)
    }
}

/// The pool evaluations of the devices with these ids that are in the pool,
/// in order.
pub open spec fn pool_devices(devices: Seq<DeviceHealth>, ids: Seq<Seq<char>>) -> Seq<DeviceHealth>
    decreases ids.len(),
{
    if ids.len() == 0 {
        Seq::empty()
    } else {
        let prev = pool_devices(devices, ids.drop_last());
        match device_named(devices, ids.last()) {
            Some(d) => prev.push(d),
            None => prev,
        }
    }
}

/// The diagnostics of the blocked devices among `ds`, in order.
pub open spec fn blocked_diags(ds: Seq<DeviceHealth>) -> Seq<(Seq<char>, Seq<char>, Seq<char>)>
    decreases ds.len(),
{
    if ds.len() == 0 {
        Seq::empty()
    } else {
        let prev = blocked_diags(ds.drop_last());
        let d = ds.last();
        if d.readiness_blocked {
            prev.push(diag("device"@, "error"@, "Device '"@ + d.id@ + "' unhealthy: "@ + joined(texts(d.blockers@), ", "@)))
        } else {
            prev
        }
    }
}

/// The number of blocked devices among `ds`.
pub open spec fn blocked_count(ds: Seq<DeviceHealth>) -> nat
    decreases ds.len(),
{
    if ds.len() == 0 {
        0
    } else {
        blocked_count(ds.drop_last()) + if ds.last().readiness_blocked { 1nat } else { 0nat }
    }
}

/// A `u32` sum that saturates at `u32::MAX`.
pub open spec fn sat_u32(a: int) -> u32 {
    if a > u32::MAX { u32::MAX } else { a as u32 }
}


fn compute_device_list(trees: &Vec<(String, Vec<String>)>, robot: &str) -> (r: Vec<String>)
    ensures
        texts(r@) == compute_devices(trees@, robot@),
{
    let mut t: usize = 0;
    while t < trees.len()
        invariant
            t <= trees.len(),
            forall|j: int| 0 <= j < t ==> (#[trigger] trees@[j]).0@ != robot@,
        decreases trees.len() - t,
    {
        if str_eq(trees[t].0.as_str(), robot) {
            proof {
                let k = choose|k: int| 0 <= k < trees@.len() && (#[trigger] trees@[k]).0@ == robot@ && forall|j: int|
                    0 <= j < k ==> (#[trigger] trees@[j]).0@ != robot@;
                if k < t {
                    assert(trees@[k].0@ != robot@);
                } else if t < k {
                    assert(trees@[t as int].0@ != robot@);
                }
            }
            return copy_texts(&trees[t].1);
        }
        t = t + 1;
    }
    let r: Vec<String> = Vec::new();
    assert(texts(r@) =~= Seq::<Seq<char>>::empty());
    r
}

pub(crate) fn robot_devices<'a>(registry: &EntityRegistry, facts: &'a EntityHealthFacts, robot: &str) -> (r: Vec<&'a DeviceHealth>)
    ensures
        r@.len() == pool_devices(facts.devices@, robot_device_ids(*registry, *facts, robot@)).len(),
        forall|k: int| 0 <= k < r@.len() ==> *(#[trigger] r@[k]) == pool_devices(facts.devices@, robot_device_ids(*registry, *facts, robot@))[k],
{
    let rel = related(registry, robot, false);
    let ids: Vec<String> = if rel.len() > 0 { rel } else { compute_device_list(&facts.robot_compute_devices, robot) };
    let ghost id_texts = robot_device_ids(*registry, *facts, robot@);
    assert(texts(ids@) == id_texts);
    let mut out: Vec<&'a DeviceHealth> = Vec::new();
    let mut i: usize = 0;
    assert(id_texts.take(0) =~= Seq::<Seq<char>>::empty());
    while i < ids.len()
        invariant
            i <= ids.len(),
            texts(ids@) == id_texts,
            out@.len() == pool_devices(facts.devices@, id_texts.take(i as int)).len(),
            forall|k: int| 0 <= k < out@.len() ==> *(#[trigger] out@[k]) == pool_devices(facts.devices@, id_texts.take(i as int))[k],
        decreases ids.len() - i,
    {
        assert(id_texts.take(i + 1).drop_last() =~= id_texts.take(i as int));
        assert(id_texts.take(i + 1).last() == ids@[i as int]@);
        match find_device(&facts.devices, ids[i].as_str()) {
            Some(d) => {
                out.push(d);
            },
            None => {},
        }
        i = i + 1;
    }
    assert(id_texts.take(ids.len() as int) =~= id_texts);
    out
}

/// A `usize` sum that saturates at `usize::MAX`.
pub open spec fn sat_usize(a: int) -> usize {
    if a > usize::MAX { usize::MAX } else { a as usize }
}

/// Diagnostics, metrics and devices checked after a robot's device pool
/// is evaluated: the blocked devices' diagnostics are added, the total is
/// set to the robot's device count and the blocked count grows.
pub open spec fn robot_step(
    reg: EntityRegistry,
    facts: EntityHealthFacts,
    robot: Seq<char>,
    d: Seq<(Seq<char>, Seq<char>, Seq<char>)>,
    m: EntityHealthMetrics,
) -> (Seq<(Seq<char>, Seq<char>, Seq<char>)>, EntityHealthMetrics, nat) {
    let ds = pool_devices(facts.devices@, robot_device_ids(reg, facts, robot));
    (
        d + blocked_diags(ds),
        EntityHealthMetrics {
            total_devices: ds.len() as u32,
            blocked_devices: sat_u32(m.blocked_devices + blocked_count(ds)),
            ..m
        },
        ds.len(),
    )
}

fn evaluate_robot_health(
    registry: &EntityRegistry,
    facts: &EntityHealthFacts,
    robot: &str,
    diagnostics: &mut Vec<EntityHealthDiagnostic>,
    metrics: &mut EntityHealthMetrics,
) -> (r: usize)
    ensures
        (diag_views(final(diagnostics)@), *final(metrics), r as nat) == robot_step(
            *registry,
            *facts,
            robot@,
            diag_views(old(diagnostics)@),
            *old(metrics),
        ),
{
    let devices = robot_devices(registry, facts, robot);
    let ghost ds = pool_devices(facts.devices@, robot_device_ids(*registry, *facts, robot@));
    let ghost start = diag_views(diagnostics@);
    let ghost m0 = *metrics;
    metrics.total_devices = devices.len() as u32;
    let mut i: usize = 0;
    assert(ds.take(0) =~= Seq::<DeviceHealth>::empty());
    while i < devices.len()
        invariant
            i <= devices.len(),
            devices@.len() == ds.len(),
            forall|k: int| 0 <= k < devices@.len() ==> *(#[trigger] devices@[k]) == ds[k],
            diag_views(diagnostics@) == start + blocked_diags(ds.take(i as int)),
            metrics.total_devices == ds.len() as u32,
            metrics.blocked_devices == sat_u32(m0.blocked_devices + blocked_count(ds.take(i as int))),
            metrics.health_checks_passed == m0.health_checks_passed,
            metrics.health_checks_failed == m0.health_checks_failed,
        decreases devices.len() - i,
    {
        assert(ds.take(i + 1).drop_last() =~= ds.take(i as int));
        let d = devices[i];
        assert(ds.take(i + 1).last() == *d);
        if d.readiness_blocked {
            metrics.blocked_devices = metrics.blocked_devices.saturating_add(1);
            let mut msg = concat3("Device '", d.id.as_str(), "' unhealthy: ");
            let j = join_texts(&d.blockers, ", ");
            msg.append(j.as_str());
            push_diagnostic(diagnostics, "device", "error", msg);
        }
        assert(diag_views(diagnostics@) =~= start + blocked_diags(ds.take(i + 1)));
        i = i + 1;
    }
    assert(ds.take(devices.len() as int) =~= ds);
    devices.len()
}

/// Diagnostics, metrics and entities checked after rolling up a fleet's
/// members, one member at a time.
pub open spec fn member_fold(
    reg: EntityRegistry,
    facts: EntityHealthFacts,
    members: Seq<Seq<char>>,
    d: Seq<(Seq<char>, Seq<char>, Seq<char>)>,
    m: EntityHealthMetrics,
    checked: nat,
) -> (Seq<(Seq<char>, Seq<char>, Seq<char>)>, EntityHealthMetrics, nat)
    decreases members.len(),
{
    if members.len() == 0 {
        (d, m, checked)
    } else {
        let p = member_fold(reg, facts, members.drop_last(), d, m, checked);
        let id = members.last();
        match entity_named(reg, id) {
            Some(mem) => {
                let d1 = if mem.health_status.is_impaired() {
                    p.0.push(diag("fleet_member"@, "warning"@, "Member '"@ + id + "' health is "@ + mem.health_status.spec_as_str()))
                } else {
                    p.0
                };
                if mem.entity_type is Robot {
                    let r = robot_step(reg, facts, mem.id@, d1, p.1);
                    (r.0, r.1, sat_usize((p.2 + r.2) as int) as nat)
                } else {
                    (d1, p.1, p.2)
                }
            },
            None => p,
        }
    }
}

fn rollup_member_health(
    registry: &EntityRegistry,
    facts: &EntityHealthFacts,
    fleet: &str,
    diagnostics: &mut Vec<EntityHealthDiagnostic>,
    metrics: &mut EntityHealthMetrics,
) -> (r: usize)
    ensures
        ({
            let members = related_ids(registry.relationships@, fleet@, true);
            (diag_views(final(diagnostics)@), *final(metrics), r as nat) == member_fold(
                *registry,
                *facts,
                members,
                diag_views(old(diagnostics)@),
                *old(metrics),
                members.len(),
            )
        }),
{
    let members = related(registry, fleet, true);
    let ghost ms = texts(members@);
    let ghost d0 = diag_views(diagnostics@);
    let ghost m0 = *metrics;
    let mut checked: usize = members.len();
    let mut i: usize = 0;
    assert(ms.take(0) =~= Seq::<Seq<char>>::empty());
    while i < members.len()
        invariant
            i <= members.len(),
            ms == texts(members@),
            (diag_views(diagnostics@), *metrics, checked as nat) == member_fold(*registry, *facts, ms.take(i as int), d0, m0, ms.len()),
        decreases members.len() - i,
    {
        assert(ms.take(i + 1).drop_last() =~= ms.take(i as int));
        assert(ms.take(i + 1).last() == members@[i as int]@);
        let id = members[i].as_str();
        match get_named(registry, id) {
            Some(mem) => {
                let impaired = match mem.health_status {
                    EntityHealthStatus::Degraded | EntityHealthStatus::Critical | EntityHealthStatus::Offline => true,
                    _ => false,
                };
                if impaired {
                    let mut msg = concat3("Member '", id, "' health is ");
                    msg.append(mem.health_status.as_str());
                    push_diagnostic(diagnostics, "fleet_member", "warning", msg);
                }
                let is_robot = match mem.entity_type {
                    EntityKind::Robot => true,
                    _ => false,
                };
                if is_robot {
                    let n = evaluate_robot_health(registry, facts, mem.id.as_str(), diagnostics, metrics);
                    checked = checked.saturating_add(n);
                }
            },
            None => {},
        }
        i = i + 1;
    }
    assert(ms.take(members.len() as int) =~= ms);
    checked
}

/// The diagnostics of the failed health checks, in order.
pub open spec fn check_diags(c: Seq<HealthCheckResult>) -> Seq<(Seq<char>, Seq<char>, Seq<char>)>
    decreases c.len(),
{
    if c.len() == 0 {
        Seq::empty()
    } else {
        let prev = check_diags(c.drop_last());
        let x = c.last();
        if x.healthy {
            prev
        } else {
            prev.push(diag("health_check"@, "warning"@, "Health check '"@ + x.name@ + "' failed for "@ + x.target@))
        }
    }
}

/// The number of passed health checks.
pub open spec fn passed_checks(c: Seq<HealthCheckResult>) -> nat
    decreases c.len(),
{
    if c.len() == 0 {
        0
    } else {
        passed_checks(c.drop_last()) + if c.last().healthy { 1nat } else { 0nat }
    }
}

fn evaluate_checks(
    checks: &Vec<HealthCheckResult>,
    runtime_degraded: bool,
    diagnostics: &mut Vec<EntityHealthDiagnostic>,
    metrics: &mut EntityHealthMetrics,
)
    ensures
        diag_views(final(diagnostics)@) == diag_views(old(diagnostics)@) + check_diags(checks@) + (if runtime_degraded {
            seq![diag("runtime"@, "warning"@, "Runtime health evaluation reports degraded posture"@)]
        } else {
            Seq::empty()
        }),
        *final(metrics) == (EntityHealthMetrics {
            health_checks_passed: passed_checks(checks@) as u32,
            health_checks_failed: (checks@.len() - passed_checks(checks@)) as u32,
            ..*old(metrics)
        }),
{
    let ghost d0 = diag_views(diagnostics@);
    let mut passed: usize = 0;
    let mut i: usize = 0;
    assert(checks@.take(0) =~= Seq::<HealthCheckResult>::empty());
    while i < checks.len()
        invariant
            i <= checks.len(),
            passed == passed_checks(checks@.take(i as int)),
            passed <= i,
            diag_views(diagnostics@) == d0 + check_diags(checks@.take(i as int)),
        decreases checks.len() - i,
    {
        assert(checks@.take(i + 1).drop_last() =~= checks@.take(i as int));
        let c = &checks[i];
        if c.healthy {
            passed = passed + 1;
        } else {
            let mut msg = concat3("Health check '", c.name.as_str(), "' failed for ");
            msg.append(c.target.as_str());
            push_diagnostic(diagnostics, "health_check", "warning", msg);
        }
        assert(diag_views(diagnostics@) =~= d0 + check_diags(checks@.take(i + 1)));
        i = i + 1;
    }
    assert(checks@.take(checks.len() as int) =~= checks@);
    metrics.health_checks_passed = passed as u32;
    metrics.health_checks_failed = (checks.len() - passed) as u32;
    let ghost d1 = diag_views(diagnostics@);
    if runtime_degraded {
        push_diagnostic(diagnostics, "runtime", "warning", "Runtime health evaluation reports degraded posture".to_owned());
    }
    assert(diag_views(diagnostics@) =~= d1 + (if runtime_degraded {
        seq![diag("runtime"@, "warning"@, "Runtime health evaluation reports degraded posture"@)]
    } else {
        Seq::empty()
    }));
}

/// What the kind-specific evaluation of an entity adds: diagnostics,
/// metrics, entities checked, and the sources it consulted.
pub open spec fn kind_step(
    reg: EntityRegistry,
    facts: EntityHealthFacts,
    e: EntityRecord,
    d: Seq<(Seq<char>, Seq<char>, Seq<char>)>,
    m: EntityHealthMetrics,
) -> (Seq<(Seq<char>, Seq<char>, Seq<char>)>, EntityHealthMetrics, nat, Seq<Seq<char>>) {
    let k = e.entity_type;
    if k is Robot || k is Drone || k is Vehicle {
        let r = robot_step(reg, facts, e.id@, d, m);
        (r.0, r.1, r.2, seq!["device_pool"@])
    } else if k is Fleet || k is Swarm {
        let members = related_ids(reg.relationships@, e.id@, true);
        let r = member_fold(reg, facts, members, d, m, members.len());
        (r.0, r.1, r.2, Seq::empty())
    } else if spec_is_device_kind(k) {
        (d + device_diags(facts.devices@, e.id@), m, 0, seq!["device_pool"@])
    } else if k is Human {
        (d + human_diags(facts.humans@, e.id@), m, 0, Seq::empty())
    } else if k is Facility || k is Building || k is Zone {
        (d + child_diags(reg, e.children_ids@), m, e.children_ids@.len(), Seq::empty())
    } else {
        (d, m, 0, Seq::empty())
    }
}

/// The report on an entity: `None` when no entity has the id; otherwise its
/// own health diagnostic, then the kind-specific diagnostics, then those of
/// the program's health checks when a program is given.
pub open spec fn health_report_of(
    reg: EntityRegistry,
    facts: EntityHealthFacts,
    id: Seq<char>,
) -> Option<(Seq<(Seq<char>, Seq<char>, Seq<char>)>, EntityHealthMetrics, nat, Seq<Seq<char>>, EntityRecord)> {
    match entity_named(reg, id) {
        Some(e) => {
            let m0 = EntityHealthMetrics { blocked_devices: 0, total_devices: 0, health_checks_passed: 0, health_checks_failed: 0 };
            let k = kind_step(reg, facts, e, snapshot_diags(e), m0);
            let srcs = seq!["entity_snapshot"@] + k.3;
            match facts.health_checks {
                Some(hc) => {
                    let checks = hc.0@;
                    Some((
                        k.0 + check_diags(checks) + (if hc.1 {
                            seq![diag("runtime"@, "warning"@, "Runtime health evaluation reports degraded posture"@)]
                        } else {
                            Seq::empty()
                        }),
                        EntityHealthMetrics {
                            health_checks_passed: passed_checks(checks) as u32,
                            health_checks_failed: (checks.len() - passed_checks(checks)) as u32,
                            ..k.1
                        },
                        k.2,
                        srcs.push("health_checks"@),
                        e,
                    ))
                },
                None => Some((k.0, k.1, k.2, srcs, e)),
            }
        },
        None => None,
    }
}

/// Evaluate the health of any entity of the registry; `None` when no
/// entity has the id.
pub fn evaluate_entity_health(entity_id: &str, registry: &EntityRegistry, facts: &EntityHealthFacts) -> (r: Option<
    EntityHealthReport,
>)
    ensures
        match health_report_of(*registry, *facts, entity_id@) {
            Some(v) => r matches Some(rep) && {
                &&& diag_views(rep.diagnostics@) == v.0
                &&& rep.metrics == v.1
                &&& rep.children_checked as nat == v.2
                &&& texts(rep.sources@) == v.3
                &&& rep.entity_id@ == v.4.id@
                &&& rep.entity_type@ == v.4.entity_type.spec_as_str()
                &&& rep.health_status@ == v.4.health_status.spec_as_str()
                &&& rep.lifecycle_state@ == facts.lifecycle_state@
            },
            None => r is None,
        },
{
    let entity = match get_named(registry, entity_id) {
        Some(e) => e,
        None => {
            return None;
        },
    };
    let mut diagnostics: Vec<EntityHealthDiagnostic> = Vec::new();
    let mut metrics = EntityHealthMetrics { blocked_devices: 0, total_devices: 0, health_checks_passed: 0, health_checks_failed: 0 };
    let mut sources: Vec<String> = vec!["entity_snapshot".to_owned()];
    assert(diag_views(diagnostics@) =~= Seq::<(Seq<char>, Seq<char>, Seq<char>)>::empty());
    snapshot_health_diagnostics(entity, &mut diagnostics);
    assert(diag_views(diagnostics@) =~= snapshot_diags(*entity));
    let ghost d1 = diag_views(diagnostics@);
    let ghost k = kind_step(*registry, *facts, *entity, d1, metrics);
    let children_checked: usize = match entity.entity_type {
        EntityKind::Robot | EntityKind::Drone | EntityKind::Vehicle => {
            push_text(&mut sources, "device_pool".to_owned());
            evaluate_robot_health(registry, facts, entity.id.as_str(), &mut diagnostics, &mut metrics)
        },
        EntityKind::Fleet | EntityKind::Swarm => {
            rollup_member_health(registry, facts, entity.id.as_str(), &mut diagnostics, &mut metrics)
        },
        EntityKind::Human => {
            evaluate_human_health(entity.id.as_str(), &facts.humans, &mut diagnostics);
            0
        },
        EntityKind::Facility | EntityKind::Building | EntityKind::Zone => {
            rollup_child_health(entity, registry, &mut diagnostics)
        },
        _ => {
            if is_device_kind(entity.entity_type) {
                push_text(&mut sources, "device_pool".to_owned());
                evaluate_device_health(entity.id.as_str(), &facts.devices, &mut diagnostics);
            }
            0
        },
    };
    assert(diag_views(diagnostics@) == k.0 && metrics == k.1 && children_checked as nat == k.2);
    assert(texts(sources@) =~= seq!["entity_snapshot"@] + k.3);
    match &facts.health_checks {
        Some(hc) => {
            push_text(&mut sources, "health_checks".to_owned());
            evaluate_checks(&hc.0, hc.1, &mut diagnostics, &mut metrics);
        },
        None => {},
    }
    Some(
        EntityHealthReport {
            entity_id: entity.id.clone(),
            entity_type: entity.entity_type.as_str().to_owned(),
            health_status: entity.health_status.as_str().to_owned(),
            lifecycle_state: facts.lifecycle_state.clone(),
            diagnostics,
            metrics,
            children_checked,
            sources,
        },
    )
}

fn push_text(v: &mut Vec<String>, s: String)
    ensures
        texts(final(v)@) == texts(old(v)@).push(s@),
{
    let ghost before = texts(v@);
    v.push(s);
    assert(texts(v@) =~= before.push(s@));
}

} // verus!
