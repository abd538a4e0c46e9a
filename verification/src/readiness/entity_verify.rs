//! Unified entity verification: the snapshot, relationship, dependency,
//! kind-specific and configuration findings for any entity of the
//! registry.
use vstd::prelude::*;
use crate::text::{
    concat2, concat3, contains_text, has_text, seq_contains, seq_lt, seq_starts_with, str_contains, str_lt,
    str_starts_with, texts,
};
use crate::readiness::gates::{join_texts, joined};
use crate::readiness::entity_health::{
    device_named, find_device, is_device_kind, pool_devices, related, related_ids,
    robot_device_ids, robot_devices, spec_is_device_kind, DeviceHealth, EntityHealthFacts,
};
use crate::recovery::entity::{
    entity_named, get_named, EntityKind, EntityRecord, EntityRegistry, EntityRelationship,
    EntityRelationshipKind,
};

use crate::recovery::graph::{
    edge_source, edge_target, is_walk, link, reachable_from, reaches, sorted_without, step, RecoveryGraphEdge,
};

verus! {

/// Single finding from entity verification.
#[derive(Debug, Clone, PartialEq, Eq)]
pub struct EntityVerifyFinding {
    pub category: String,
    pub severity: String,
    pub message: String,
    pub source: String,
}

/// Unified verification report for any entity kind.
#[derive(Debug, Clone, PartialEq, Eq)]
pub struct EntityVerifyReport {
    pub entity_id: String,
    pub entity_type: String,
    pub compatible: bool,
    pub findings: Vec<EntityVerifyFinding>,
    pub capabilities: Vec<String>,
    pub relationships_checked: usize,
    pub dependencies_checked: usize,
    pub health_status: String,
    pub readiness_status: String,
    pub trust_status: String,
}

/// A finding as plain values: category, severity, message, source.
pub open spec fn fv(c: Seq<char>, s: Seq<char>, m: Seq<char>, src: Seq<char>) -> (Seq<char>, Seq<char>, Seq<char>, Seq<char>) {
    (c, s, m, src)
}

pub open spec fn finding_views(f: Seq<EntityVerifyFinding>) -> Seq<(Seq<char>, Seq<char>, Seq<char>, Seq<char>)> {
    f.map_values(|x: EntityVerifyFinding| (x.category@, x.severity@, x.message@, x.source@))
}

fn push_finding(findings: &mut Vec<EntityVerifyFinding>, category: &str, severity: &str, message: String, source: &str)
    ensures
        finding_views(final(findings)@) == finding_views(old(findings)@).push(fv(category@, severity@, message@, source@)),
{
    let ghost before = finding_views(findings@);
    findings.push(
        EntityVerifyFinding {
            category: category.to_owned(),
            severity: severity.to_owned(),
            message,
            source: source.to_owned(),
        },
    );
    assert(finding_views(findings@) =~= before.push(fv(category@, severity@, message@, source@)));
}

/// The findings an entity's own recorded status gives.
pub open spec fn snapshot_findings_of(e: EntityRecord) -> Seq<(Seq<char>, Seq<char>, Seq<char>, Seq<char>)> {
    (if e.health_status.is_impaired() {
        seq![fv("health"@, "warning"@, "Entity health is "@ + e.health_status.spec_as_str() + " — review before deployment"@, "entity_snapshot"@)]
    } else {
        Seq::empty()
    }) + (if e.readiness_status is NotReady {
        seq![fv("readiness"@, "error"@, "Entity readiness is not_ready"@, "entity_snapshot"@)]
    } else {
        Seq::empty()
    }) + (if e.trust_status is Untrusted || e.trust_status is Compromised {
        seq![fv("trust"@, "error"@, "Entity trust is "@ + e.trust_status.spec_as_str(), "entity_snapshot"@)]
    } else {
        Seq::empty()
    })
}

fn snapshot_findings(e: &EntityRecord, findings: &mut Vec<EntityVerifyFinding>)
    ensures
        finding_views(final(findings)@) == finding_views(old(findings)@) + snapshot_findings_of(*e),
{
    let ghost start = finding_views(findings@);
    let impaired = match e.health_status {
        crate::recovery::entity::EntityHealthStatus::Degraded | crate::recovery::entity::EntityHealthStatus::Critical
        | crate::recovery::entity::EntityHealthStatus::Offline => true,
        _ => false,
    };
    if impaired {
        push_finding(
            findings,
            "health",
            "warning",
            concat3("Entity health is ", e.health_status.as_str(), " — review before deployment"),
            "entity_snapshot",
        );
    }
    let ghost a = finding_views(findings@);
    let not_ready = match e.readiness_status {
        crate::recovery::entity::EntityReadinessStatus::NotReady => true,
        _ => false,
    };
    if not_ready {
        push_finding(findings, "readiness", "error", "Entity readiness is not_ready".to_owned(), "entity_snapshot");
    }
    let ghost b = finding_views(findings@);
    let distrusted = match e.trust_status {
        crate::recovery::entity::EntityTrustStatus::Untrusted | crate::recovery::entity::EntityTrustStatus::Compromised => true,
        _ => false,
    };
    if distrusted {
        push_finding(findings, "trust", "error", concat2("Entity trust is ", e.trust_status.as_str()), "entity_snapshot");
    }
    assert(finding_views(findings@) =~= start + snapshot_findings_of(*e));
}

/// The relationship joins the entity to another.
pub open spec fn touches(r: EntityRelationship, id: Seq<char>) -> bool {
    r.from_id@ == id || r.to_id@ == id
}

/// The number of relationships that touch the entity.
pub open spec fn touch_count(rels: Seq<EntityRelationship>, id: Seq<char>) -> nat
    decreases rels.len(),
{
    if rels.len() == 0 {
        0
    } else {
        touch_count(rels.drop_last(), id) + if touches(rels.last(), id) { 1nat } else { 0nat }
    }
}

/// For each relationship of the entity, in order, whose other end is not
/// in the registry: an error.
pub open spec fn relationship_findings_of(reg: EntityRegistry, rels: Seq<EntityRelationship>, id: Seq<char>) -> Seq<
    (Seq<char>, Seq<char>, Seq<char>, Seq<char>),
>
    decreases rels.len(),
{
    if rels.len() == 0 {
        Seq::empty()
    } else {
        let prev = relationship_findings_of(reg, rels.drop_last(), id);
        let r = rels.last();
        let other = if r.from_id@ == id { r.to_id@ } else { r.from_id@ };
        if touches(r, id) && entity_named(reg, other) is None {
            prev.push(
                fv(
                    "relationship"@,
                    "error"@,
                    "Relationship "@ + r.kind.spec_debug_name() + " references missing entity '"@ + other + "'"@,
                    "entity_graph"@,
                ),
            )
        } else {
            prev
        }
    }
}

fn verify_relationship_targets(registry: &EntityRegistry, id: &str, findings: &mut Vec<EntityVerifyFinding>) -> (r: usize)
    ensures
        finding_views(final(findings)@) == finding_views(old(findings)@) + relationship_findings_of(
            *registry,
            registry.relationships@,
            id@,
        ),
        r as nat == touch_count(registry.relationships@, id@),
{
    let ghost start = finding_views(findings@);
    let rels = &registry.relationships;
    let mut n: usize = 0;
    let mut i: usize = 0;
    assert(rels@.take(0) =~= Seq::<EntityRelationship>::empty());
    while i < rels.len()
        invariant
            rels == &registry.relationships,
            i <= rels.len(),
            finding_views(findings@) == start + relationship_findings_of(*registry, rels@.take(i as int), id@),
            n as nat == touch_count(rels@.take(i as int), id@),
            n <= i,
        decreases rels.len() - i,
    {
        assert(rels@.take(i + 1).drop_last() =~= rels@.take(i as int));
        let r = &rels[i];
        let from_here = crate::text::str_eq(r.from_id.as_str(), id);
        if from_here || crate::text::str_eq(r.to_id.as_str(), id) {
            n = n + 1;
            let other = if from_here { r.to_id.as_str() } else { r.from_id.as_str() };
            if get_named(registry, other).is_none() {
                let mut msg = concat3("Relationship ", r.kind.debug_name(), " references missing entity '");
                msg.append(other);
                msg.append("'");
                push_finding(findings, "relationship", "error", msg, "entity_graph");
            }
        }
        assert(finding_views(findings@) =~= start + relationship_findings_of(*registry, rels@.take(i + 1), id@));
        i = i + 1;
    }
    assert(rels@.take(rels.len() as int) =~= rels@);
    n
}

/// For each id, in order, that no entity has: an error of the category,
/// with the id between `prefix` and `suffix`.
pub open spec fn missing_findings_of(
    reg: EntityRegistry,
    ids: Seq<Seq<char>>,
    category: Seq<char>,
    prefix: Seq<char>,
    suffix: Seq<char>,
) -> Seq<(Seq<char>, Seq<char>, Seq<char>, Seq<char>)>
    decreases ids.len(),
{
    if ids.len() == 0 {
        Seq::empty()
    } else {
        let prev = missing_findings_of(reg, ids.drop_last(), category, prefix, suffix);
        if entity_named(reg, ids.last()) is None {
            prev.push(fv(category, "error"@, prefix + ids.last() + suffix, "entity_graph"@))
        } else {
            prev
        }
    }
}

fn missing_findings(
    registry: &EntityRegistry,
    ids: &Vec<String>,
    category: &str,
    prefix: &str,
    suffix: &str,
    findings: &mut Vec<EntityVerifyFinding>,
)
    ensures
        finding_views(final(findings)@) == finding_views(old(findings)@) + missing_findings_of(
            *registry,
            texts(ids@),
            category@,
            prefix@,
            suffix@,
        ),
{
    let ghost start = finding_views(findings@);
    let ghost t = texts(ids@);
    let mut i: usize = 0;
    assert(t.take(0) =~= Seq::<Seq<char>>::empty());
    while i < ids.len()
        invariant
            t == texts(ids@),
            i <= ids.len(),
            finding_views(findings@) == start + missing_findings_of(*registry, t.take(i as int), category@, prefix@, suffix@),
        decreases ids.len() - i,
    {
        assert(t.take(i + 1).drop_last() =~= t.take(i as int));
        assert(t.take(i + 1).last() == ids@[i as int]@);
        if get_named(registry, ids[i].as_str()).is_none() {
            let mut msg = concat2(prefix, ids[i].as_str());
            msg.append(suffix);
            push_finding(findings, category, "error", msg, "entity_graph");
        }
        assert(finding_views(findings@) =~= start + missing_findings_of(*registry, t.take(i + 1), category@, prefix@, suffix@));
        i = i + 1;
    }
    assert(t.take(ids.len() as int) =~= t);
}

/// Severity of a configuration validation finding.
#[derive(Debug, Clone, Copy, PartialEq, Eq, Structural)]
pub enum ConfigSeverity {
    Error,
    Warning,
    Info,
}

impl ConfigSeverity {
    pub open spec fn spec_as_str(self) -> Seq<char> {
        match self {
            ConfigSeverity::Error => "error"@,
            ConfigSeverity::Warning => "warning"@,
            ConfigSeverity::Info => "info"@,
        }
    }

    /// The finding severity the configuration severity maps to.
    pub fn as_str(&self) -> (r: &'static str)
        ensures
            r@ == self.spec_as_str(),
    {
        match self {
            ConfigSeverity::Error => "error",
            ConfigSeverity::Warning => "warning",
            ConfigSeverity::Info => "info",
        }
    }
}

/// One finding of the resolved configuration's validation.
#[derive(Debug, Clone)]
pub struct ConfigFinding {
    pub code: String,
    pub severity: ConfigSeverity,
    pub message: String,
}

/// The configuration findings that name the entity, in order.
pub open spec fn config_findings_of(cfg: Seq<ConfigFinding>, id: Seq<char>) -> Seq<(Seq<char>, Seq<char>, Seq<char>, Seq<char>)>
    decreases cfg.len(),
{
    if cfg.len() == 0 {
        Seq::empty()
    } else {
        let prev = config_findings_of(cfg.drop_last(), id);
        let f = cfg.last();
        if seq_contains(f.message@, id) || seq_contains(f.code@, id) {
            prev.push(fv(f.code@, f.severity.spec_as_str(), f.message@, "config_validation"@))
        } else {
            prev
        }
    }
}

fn merge_config_validation_findings(cfg: &Vec<ConfigFinding>, id: &str, findings: &mut Vec<EntityVerifyFinding>)
    ensures
        finding_views(final(findings)@) == finding_views(old(findings)@) + config_findings_of(cfg@, id@),
{
    let ghost start = finding_views(findings@);
    let mut i: usize = 0;
    assert(cfg@.take(0) =~= Seq::<ConfigFinding>::empty());
    while i < cfg.len()
        invariant
            i <= cfg.len(),
            finding_views(findings@) == start + config_findings_of(cfg@.take(i as int), id@),
        decreases cfg.len() - i,
    {
        assert(cfg@.take(i + 1).drop_last() =~= cfg@.take(i as int));
        let f = &cfg[i];
        if str_contains(f.message.as_str(), id) || str_contains(f.code.as_str(), id) {
            push_finding(findings, f.code.as_str(), f.severity.as_str(), f.message.clone(), "config_validation");
        }
        assert(finding_views(findings@) =~= start + config_findings_of(cfg@.take(i + 1), id@));
        i = i + 1;
    }
    assert(cfg@.take(cfg.len() as int) =~= cfg@);
}


/// Whether an operator is available and when each certification expires.
#[derive(Debug, Clone)]
pub struct HumanVerifyFacts {
    pub id: String,
    pub available: bool,
    pub cert_expiries: Vec<Option<String>>,
}

/// Severity of a hardware compatibility item.
#[derive(Debug, Clone, Copy, PartialEq, Eq, Structural)]
pub enum CompatSeverity {
    Pass,
    Warning,
    Error,
}

/// One item of the hardware compatibility verification.
#[derive(Debug, Clone)]
pub struct CompatItem {
    pub category: String,
    pub severity: CompatSeverity,
    pub message: String,
}

/// What the mission verification found of one mission.
#[derive(Debug, Clone)]
pub struct MissionVerification {
    pub mission_name: Option<String>,
    pub robot: Option<String>,
    pub achievable: bool,
    pub issues: Vec<String>,
}

/// One finding of the fleet verification.
#[derive(Debug, Clone)]
pub struct FleetVerifyFinding {
    pub category: String,
    pub severity: String,
    pub message: String,
}

/// What verifying the program against one robot's hardware profile found.
#[derive(Debug, Clone)]
pub struct RobotProgramFacts {
    pub robot_id: String,
    pub hardware: Vec<CompatItem>,
    pub missions: Vec<MissionVerification>,
}

/// What verifying the program found: per robot, for every mission, and for
/// the fleet.
#[derive(Debug, Clone)]
pub struct ProgramVerifyFacts {
    pub robots: Vec<RobotProgramFacts>,
    pub missions: Vec<MissionVerification>,
    pub fleet_findings: Vec<FleetVerifyFinding>,
}

/// What verification reads besides the registry and the device pool.
#[derive(Debug, Clone)]
pub struct EntityVerifyFacts {
    pub include_dependencies: bool,
    pub humans: Vec<HumanVerifyFacts>,
    pub today: String,
    pub providers: Vec<String>,
    pub config_findings: Vec<ConfigFinding>,
    pub program: Option<ProgramVerifyFacts>,
}

/// For each device, in order: an error when it blocks readiness and one
/// when it is quarantined.
pub open spec fn device_findings_of(ds: Seq<DeviceHealth>) -> Seq<(Seq<char>, Seq<char>, Seq<char>, Seq<char>)>
    decreases ds.len(),
{
    if ds.len() == 0 {
        Seq::empty()
    } else {
        let d = ds.last();
        device_findings_of(ds.drop_last()) + (if d.readiness_blocked {
            seq![fv("device"@, "error"@, "Device '"@ + d.id@ + "' blocks readiness: "@ + joined(texts(d.blockers@), ", "@), "device_pool"@)]
        } else {
            Seq::empty()
        }) + (if d.quarantined {
            seq![fv("quarantine"@, "error"@, "Device '"@ + d.id@ + "' is quarantined: "@ + joined(texts(d.quarantine_reasons@), ", "@), "device_pool"@)]
        } else {
            Seq::empty()
        })
    }
}

/// The hardware items that did not pass, in order.
pub open spec fn hardware_findings_of(items: Seq<CompatItem>) -> Seq<(Seq<char>, Seq<char>, Seq<char>, Seq<char>)>
    decreases items.len(),
{
    if items.len() == 0 {
        Seq::empty()
    } else {
        let prev = hardware_findings_of(items.drop_last());
        let it = items.last();
        match it.severity {
            CompatSeverity::Pass => prev,
            CompatSeverity::Warning => prev.push(fv(it.category@, "warning"@, it.message@, "hardware_verify"@)),
            CompatSeverity::Error => prev.push(fv(it.category@, "error"@, it.message@, "hardware_verify"@)),
        }
    }
}

/// An optional text as `Debug` prints it (for texts without quotes,
/// backslashes or control characters).
pub open spec fn opt_debug(o: Option<String>) -> Seq<char> {
    match o {
        Some(s) => "Some(\""@ + s@ + "\")"@,
        None => "None"@,
    }
}

/// The error of a mission that cannot be achieved.
pub open spec fn mission_report_finding(m: MissionVerification) -> (Seq<char>, Seq<char>, Seq<char>, Seq<char>) {
    fv(
        "mission"@,
        "error"@,
        "Mission '"@ + (match m.mission_name {
            Some(n) => n@,
            None => "?"@,
        }) + "' not achievable on robot "@ + opt_debug(m.robot) + ": "@ + joined(texts(m.issues@), "; "@),
        "mission_verify"@,
    )
}

/// The missions of the robot that cannot be achieved, in order.
pub open spec fn robot_mission_findings_of(ms: Seq<MissionVerification>, robot: Seq<char>) -> Seq<
    (Seq<char>, Seq<char>, Seq<char>, Seq<char>),
>
    decreases ms.len(),
{
    if ms.len() == 0 {
        Seq::empty()
    } else {
        let prev = robot_mission_findings_of(ms.drop_last(), robot);
        let m = ms.last();
        if (m.robot matches Some(r) && r@ == robot) && !m.achievable {
            prev.push(mission_report_finding(m))
        } else {
            prev
        }
    }
}

/// The program facts of the first entry for the robot.
pub open spec fn robot_facts_named(rs: Seq<RobotProgramFacts>, robot: Seq<char>) -> Option<RobotProgramFacts> {
    if exists|i: int| 0 <= i < rs.len() && (#[trigger] rs[i]).robot_id@ == robot {
        Some(rs[choose|i: int| 0 <= i < rs.len() && (#[trigger] rs[i]).robot_id@ == robot && forall|j: int|
            0 <= j < i ==> (#[trigger] rs[j]).robot_id@ != robot])
    } else {
        None
    }
}

/// What the program verification adds for a robot.
pub open spec fn robot_program_findings_of(vf: EntityVerifyFacts, robot: Seq<char>) -> Seq<
    (Seq<char>, Seq<char>, Seq<char>, Seq<char>),
> {
    match vf.program {
        Some(p) => match robot_facts_named(p.robots@, robot) {
            Some(rf) => hardware_findings_of(rf.hardware@) + robot_mission_findings_of(rf.missions@, robot),
            None => Seq::empty(),
        },
        None => Seq::empty(),
    }
}

/// For each mission the robot participates in, in relationship order, that
/// is not ready: a warning.
pub open spec fn linked_mission_findings_of(reg: EntityRegistry, rels: Seq<EntityRelationship>, robot: Seq<char>) -> Seq<
    (Seq<char>, Seq<char>, Seq<char>, Seq<char>),
>
    decreases rels.len(),
{
    if rels.len() == 0 {
        Seq::empty()
    } else {
        let prev = linked_mission_findings_of(reg, rels.drop_last(), robot);
        let r = rels.last();
        let other = if r.from_id@ == robot { r.to_id@ } else { r.from_id@ };
        if r.kind is ParticipatesIn && touches(r, robot) {
            match entity_named(reg, other) {
                Some(m) => if m.entity_type is Mission && m.readiness_status is NotReady {
                    prev.push(fv("mission"@, "warning"@, "Linked mission '"@ + m.id@ + "' is not ready"@, "entity_registry"@))
                } else {
                    prev
                },
                None => prev,
            }
        } else {
            prev
        }
    }
}

/// Everything verifying a robot finds: its devices, the program's hardware
/// and mission checks for it, and its missions that are not ready.
pub open spec fn robot_findings_of(reg: EntityRegistry, hf: EntityHealthFacts, vf: EntityVerifyFacts, robot: Seq<char>) -> Seq<
    (Seq<char>, Seq<char>, Seq<char>, Seq<char>),
> {
    device_findings_of(pool_devices(hf.devices@, robot_device_ids(reg, hf, robot))) + robot_program_findings_of(vf, robot)
        + linked_mission_findings_of(reg, reg.relationships@, robot)
}

fn device_findings(ds: &Vec<&DeviceHealth>, findings: &mut Vec<EntityVerifyFinding>, Ghost(seq): Ghost<Seq<DeviceHealth>>)
    requires
        ds@.len() == seq.len(),
        forall|k: int| 0 <= k < ds@.len() ==> *(#[trigger] ds@[k]) == seq[k],
    ensures
        finding_views(final(findings)@) == finding_views(old(findings)@) + device_findings_of(seq),
{
    let ghost start = finding_views(findings@);
    let mut i: usize = 0;
    assert(seq.take(0) =~= Seq::<DeviceHealth>::empty());
    while i < ds.len()
        invariant
            i <= ds.len(),
            ds@.len() == seq.len(),
            forall|k: int| 0 <= k < ds@.len() ==> *(#[trigger] ds@[k]) == seq[k],
            finding_views(findings@) == start + device_findings_of(seq.take(i as int)),
        decreases ds.len() - i,
    {
        assert(seq.take(i + 1).drop_last() =~= seq.take(i as int));
        let d = ds[i];
        assert(seq.take(i + 1).last() == *d);
        let ghost a = finding_views(findings@);
        if d.readiness_blocked {
            let mut msg = concat3("Device '", d.id.as_str(), "' blocks readiness: ");
            let j = join_texts(&d.blockers, ", ");
            msg.append(j.as_str());
            push_finding(findings, "device", "error", msg, "device_pool");
        }
        let ghost b = finding_views(findings@);
        if d.quarantined {
            let mut msg = concat3("Device '", d.id.as_str(), "' is quarantined: ");
            let j = join_texts(&d.quarantine_reasons, ", ");
            msg.append(j.as_str());
            push_finding(findings, "quarantine", "error", msg, "device_pool");
        }
        assert(finding_views(findings@) =~= start + device_findings_of(seq.take(i + 1)));
        i = i + 1;
    }
    assert(seq.take(ds.len() as int) =~= seq);
}

fn merge_hardware_findings(items: &Vec<CompatItem>, findings: &mut Vec<EntityVerifyFinding>)
    ensures
        finding_views(final(findings)@) == finding_views(old(findings)@) + hardware_findings_of(items@),
{
    let ghost start = finding_views(findings@);
    let mut i: usize = 0;
    assert(items@.take(0) =~= Seq::<CompatItem>::empty());
    while i < items.len()
        invariant
            i <= items.len(),
            finding_views(findings@) == start + hardware_findings_of(items@.take(i as int)),
        decreases items.len() - i,
    {
        assert(items@.take(i + 1).drop_last() =~= items@.take(i as int));
        let it = &items[i];
        match it.severity {
            CompatSeverity::Pass => {},
            CompatSeverity::Warning => {
                push_finding(findings, it.category.as_str(), "warning", it.message.clone(), "hardware_verify");
            },
            CompatSeverity::Error => {
                push_finding(findings, it.category.as_str(), "error", it.message.clone(), "hardware_verify");
            },
        }
        assert(finding_views(findings@) =~= start + hardware_findings_of(items@.take(i + 1)));
        i = i + 1;
    }
    assert(items@.take(items.len() as int) =~= items@);
}

fn merge_mission_report(m: &MissionVerification, findings: &mut Vec<EntityVerifyFinding>)
    ensures
        finding_views(final(findings)@) == finding_views(old(findings)@).push(mission_report_finding(*m)),
{
    let mut msg = "Mission '".to_owned();
    match &m.mission_name {
        Some(n) => msg.append(n.as_str()),
        None => msg.append("?"),
    }
    msg.append("' not achievable on robot ");
    match &m.robot {
        Some(r) => {
            msg.append("Some(\"");
            msg.append(r.as_str());
            msg.append("\")");
        },
        None => msg.append("None"),
    }
    msg.append(": ");
    let j = join_texts(&m.issues, "; ");
    msg.append(j.as_str());
    assert(msg@ =~= "Mission '"@ + (match m.mission_name {
        Some(n) => n@,
        None => "?"@,
    }) + "' not achievable on robot "@ + opt_debug(m.robot) + ": "@ + joined(texts(m.issues@), "; "@));
    push_finding(findings, "mission", "error", msg, "mission_verify");
}

fn robot_mission_findings(ms: &Vec<MissionVerification>, robot: &str, findings: &mut Vec<EntityVerifyFinding>)
    ensures
        finding_views(final(findings)@) == finding_views(old(findings)@) + robot_mission_findings_of(ms@, robot@),
{
    let ghost start = finding_views(findings@);
    let mut i: usize = 0;
    assert(ms@.take(0) =~= Seq::<MissionVerification>::empty());
    while i < ms.len()
        invariant
            i <= ms.len(),
            finding_views(findings@) == start + robot_mission_findings_of(ms@.take(i as int), robot@),
        decreases ms.len() - i,
    {
        assert(ms@.take(i + 1).drop_last() =~= ms@.take(i as int));
        let m = &ms[i];
        let on_robot = match &m.robot {
            Some(r) => crate::text::str_eq(r.as_str(), robot),
            None => false,
        };
        if on_robot && !m.achievable {
            merge_mission_report(m, findings);
        }
        assert(finding_views(findings@) =~= start + robot_mission_findings_of(ms@.take(i + 1), robot@));
        i = i + 1;
    }
    assert(ms@.take(ms.len() as int) =~= ms@);
}

fn find_robot_facts<'a>(rs: &'a Vec<RobotProgramFacts>, robot: &str) -> (r: Option<&'a RobotProgramFacts>)
    ensures
        match r {
            Some(f) => robot_facts_named(rs@, robot@) == Some(*f),
            None => robot_facts_named(rs@, robot@) is None,
        },
{
    let mut i: usize = 0;
    while i < rs.len()
        invariant
            i <= rs.len(),
            forall|j: int| 0 <= j < i ==> (#[trigger] rs@[j]).robot_id@ != robot@,
        decreases rs.len() - i,
    {
        if crate::text::str_eq(rs[i].robot_id.as_str(), robot) {
            proof {
                let k = choose|k: int|
                    0 <= k < rs@.len() && (#[trigger] rs@[k]).robot_id@ == robot@ && forall|j: int|
                        0 <= j < k ==> (#[trigger] rs@[j]).robot_id@ != robot@;
                if k < i {
                    assert(rs@[k].robot_id@ != robot@);
                } else if i < k {
                    assert(rs@[i as int].robot_id@ != robot@);
                }
            }
            return Some(&rs[i]);
        }
        i = i + 1;
    }
    None
}

fn linked_mission_findings(registry: &EntityRegistry, robot: &str, findings: &mut Vec<EntityVerifyFinding>)
    ensures
        finding_views(final(findings)@) == finding_views(old(findings)@) + linked_mission_findings_of(
            *registry,
            registry.relationships@,
            robot@,
        ),
{
    let ghost start = finding_views(findings@);
    let rels = &registry.relationships;
    let mut i: usize = 0;
    assert(rels@.take(0) =~= Seq::<EntityRelationship>::empty());
    while i < rels.len()
        invariant
            rels == &registry.relationships,
            i <= rels.len(),
            finding_views(findings@) == start + linked_mission_findings_of(*registry, rels@.take(i as int), robot@),
        decreases rels.len() - i,
    {
        assert(rels@.take(i + 1).drop_last() =~= rels@.take(i as int));
        let r = &rels[i];
        let from_here = crate::text::str_eq(r.from_id.as_str(), robot);
        let participates = match r.kind {
            EntityRelationshipKind::ParticipatesIn => true,
            _ => false,
        };
        if participates && (from_here || crate::text::str_eq(r.to_id.as_str(), robot)) {
            let other = if from_here { r.to_id.as_str() } else { r.from_id.as_str() };
            match get_named(registry, other) {
                Some(m) => {
                    let is_mission = match m.entity_type {
                        EntityKind::Mission => true,
                        _ => false,
                    };
                    let not_ready = match m.readiness_status {
                        crate::recovery::entity::EntityReadinessStatus::NotReady => true,
                        _ => false,
                    };
                    if is_mission && not_ready {
                        push_finding(findings, "mission", "warning", concat3("Linked mission '", m.id.as_str(), "' is not ready"), "entity_registry");
                    }
                },
                None => {},
            }
        }
        assert(finding_views(findings@) =~= start + linked_mission_findings_of(*registry, rels@.take(i + 1), robot@));
        i = i + 1;
    }
    assert(rels@.take(rels.len() as int) =~= rels@);
}

fn verify_robot_entity(
    registry: &EntityRegistry,
    hf: &EntityHealthFacts,
    vf: &EntityVerifyFacts,
    robot: &str,
    findings: &mut Vec<EntityVerifyFinding>,
)
    ensures
        finding_views(final(findings)@) == finding_views(old(findings)@) + robot_findings_of(*registry, *hf, *vf, robot@),
{
    let ghost start = finding_views(findings@);
    let devices = robot_devices(registry, hf, robot);
    device_findings(&devices, findings, Ghost(pool_devices(hf.devices@, robot_device_ids(*registry, *hf, robot@))));
    let ghost a = finding_views(findings@);
    match &vf.program {
        Some(p) => match find_robot_facts(&p.robots, robot) {
            Some(rf) => {
                merge_hardware_findings(&rf.hardware, findings);
                robot_mission_findings(&rf.missions, robot, findings);
            },
            None => {},
        },
        None => {},
    }
    let ghost b = finding_views(findings@);
    assert(b =~= a + robot_program_findings_of(*vf, robot@));
    linked_mission_findings(registry, robot, findings);
    assert(finding_views(findings@) =~= start + robot_findings_of(*registry, *hf, *vf, robot@));
}

/// The fleet-verification findings, in order.
pub open spec fn fleet_program_findings_of(fs: Seq<FleetVerifyFinding>) -> Seq<(Seq<char>, Seq<char>, Seq<char>, Seq<char>)> {
    fs.map_values(|f: FleetVerifyFinding| fv(f.category@, f.severity@, f.message@, "fleet_verify"@))
}

/// The robot findings of each member that is a robot, in order.
pub open spec fn member_robot_findings_of(
    reg: EntityRegistry,
    hf: EntityHealthFacts,
    vf: EntityVerifyFacts,
    members: Seq<Seq<char>>,
) -> Seq<(Seq<char>, Seq<char>, Seq<char>, Seq<char>)>
    decreases members.len(),
{
    if members.len() == 0 {
        Seq::empty()
    } else {
        let prev = member_robot_findings_of(reg, hf, vf, members.drop_last());
        let m = members.last();
        match entity_named(reg, m) {
            Some(e) => if e.entity_type is Robot {
                prev + robot_findings_of(reg, hf, vf, m)
            } else {
                prev
            },
            None => prev,
        }
    }
}

/// Verifying a fleet: its members exist and its robots verify.
pub open spec fn fleet_findings_of(reg: EntityRegistry, hf: EntityHealthFacts, vf: EntityVerifyFacts, id: Seq<char>) -> Seq<
    (Seq<char>, Seq<char>, Seq<char>, Seq<char>),
> {
    let members = related_ids(reg.relationships@, id, true);
    (if members.len() == 0 {
        seq![fv("fleet"@, "warning"@, "Fleet has no member entities in the relationship graph"@, "entity_graph"@)]
    } else {
        Seq::empty()
    }) + missing_findings_of(reg, members, "fleet"@, "Fleet member '"@, "' not found in entity registry"@) + (match vf.program {
        Some(p) => fleet_program_findings_of(p.fleet_findings@),
        None => Seq::empty(),
    }) + member_robot_findings_of(reg, hf, vf, members)
}

fn verify_fleet_entity(
    registry: &EntityRegistry,
    hf: &EntityHealthFacts,
    vf: &EntityVerifyFacts,
    id: &str,
    findings: &mut Vec<EntityVerifyFinding>,
)
    ensures
        finding_views(final(findings)@) == finding_views(old(findings)@) + fleet_findings_of(*registry, *hf, *vf, id@),
{
    let ghost start = finding_views(findings@);
    let members = related(registry, id, true);
    if members.len() == 0 {
        push_finding(findings, "fleet", "warning", "Fleet has no member entities in the relationship graph".to_owned(), "entity_graph");
    }
    missing_findings(registry, &members, "fleet", "Fleet member '", "' not found in entity registry", findings);
    let ghost a = finding_views(findings@);
    match &vf.program {
        Some(p) => {
            let fs = &p.fleet_findings;
            let mut k: usize = 0;
            while k < fs.len()
                invariant
                    k <= fs.len(),
                    finding_views(findings@) == a + fleet_program_findings_of(fs@.take(k as int)),
                decreases fs.len() - k,
            {
                push_finding(findings, fs[k].category.as_str(), fs[k].severity.as_str(), fs[k].message.clone(), "fleet_verify");
                assert(fleet_program_findings_of(fs@.take(k + 1)) =~= fleet_program_findings_of(fs@.take(k as int)).push(
                    fv(fs@[k as int].category@, fs@[k as int].severity@, fs@[k as int].message@, "fleet_verify"@),
                ));
                k = k + 1;
            }
            assert(fs@.take(fs.len() as int) =~= fs@);
        },
        None => {},
    }
    let ghost b = finding_views(findings@);
    let ghost mt = texts(members@);
    let mut i: usize = 0;
    assert(mt.take(0) =~= Seq::<Seq<char>>::empty());
    while i < members.len()
        invariant
            i <= members.len(),
            mt == texts(members@),
            finding_views(findings@) == b + member_robot_findings_of(*registry, *hf, *vf, mt.take(i as int)),
        decreases members.len() - i,
    {
        assert(mt.take(i + 1).drop_last() =~= mt.take(i as int));
        assert(mt.take(i + 1).last() == members@[i as int]@);
        let ghost c = finding_views(findings@);
        match get_named(registry, members[i].as_str()) {
            Some(e) => {
                let robot = match e.entity_type {
                    EntityKind::Robot => true,
                    _ => false,
                };
                if robot {
                    verify_robot_entity(registry, hf, vf, members[i].as_str(), findings);
                }
            },
            None => {},
        }
        assert(finding_views(findings@) =~= b + member_robot_findings_of(*registry, *hf, *vf, mt.take(i + 1)));
        i = i + 1;
    }
    assert(mt.take(members.len() as int) =~= mt);
    assert(finding_views(findings@) =~= start + fleet_findings_of(*registry, *hf, *vf, id@));
}

/// The name a mission is matched by: its name, else its display name, else
/// its id.
pub open spec fn mission_label(e: EntityRecord) -> Seq<char> {
    match e.name {
        Some(n) => n@,
        None => match e.display_name {
            Some(d) => d@,
            None => e.id@,
        },
    }
}

/// The unachievable missions whose name is the label or the id, in order.
pub open spec fn named_mission_findings_of(ms: Seq<MissionVerification>, label: Seq<char>, id: Seq<char>) -> Seq<
    (Seq<char>, Seq<char>, Seq<char>, Seq<char>),
>
    decreases ms.len(),
{
    if ms.len() == 0 {
        Seq::empty()
    } else {
        let prev = named_mission_findings_of(ms.drop_last(), label, id);
        let m = ms.last();
        if (m.mission_name matches Some(n) && (n@ == label || n@ == id)) && !m.achievable {
            prev.push(mission_report_finding(m))
        } else {
            prev
        }
    }
}

/// The other ends of the entity's participation relationships, in order.
pub open spec fn participants_of(rels: Seq<EntityRelationship>, id: Seq<char>) -> Seq<Seq<char>>
    decreases rels.len(),
{
    if rels.len() == 0 {
        Seq::empty()
    } else {
        let prev = participants_of(rels.drop_last(), id);
        let r = rels.last();
        if touches(r, id) && r.kind is ParticipatesIn {
            prev.push(if r.to_id@ == id { r.from_id@ } else { r.to_id@ })
        } else {
            prev
        }
    }
}

/// Verifying a mission: its readiness, the program's verdict on it and its
/// participants.
pub open spec fn mission_findings_of(reg: EntityRegistry, vf: EntityVerifyFacts, e: EntityRecord) -> Seq<
    (Seq<char>, Seq<char>, Seq<char>, Seq<char>),
> {
    (if e.readiness_status is NotReady {
        seq![fv("mission"@, "error"@, "Mission entity is not ready"@, "entity_snapshot"@)]
    } else {
        Seq::empty()
    }) + (match vf.program {
        Some(p) => named_mission_findings_of(p.missions@, mission_label(e), e.id@),
        None => Seq::empty(),
    }) + missing_findings_of(reg, participants_of(reg.relationships@, e.id@), "mission"@, "Mission participant '"@, "' not found"@)
}

fn verify_mission_entity(registry: &EntityRegistry, vf: &EntityVerifyFacts, e: &EntityRecord, findings: &mut Vec<EntityVerifyFinding>)
    ensures
        finding_views(final(findings)@) == finding_views(old(findings)@) + mission_findings_of(*registry, *vf, *e),
{
    let ghost start = finding_views(findings@);
    let not_ready = match e.readiness_status {
        crate::recovery::entity::EntityReadinessStatus::NotReady => true,
        _ => false,
    };
    if not_ready {
        push_finding(findings, "mission", "error", "Mission entity is not ready".to_owned(), "entity_snapshot");
    }
    let ghost a = finding_views(findings@);
    match &vf.program {
        Some(p) => {
            let label: &str = match &e.name {
                Some(n) => n.as_str(),
                None => match &e.display_name {
                    Some(d) => d.as_str(),
                    None => e.id.as_str(),
                },
            };
            let ms = &p.missions;
            let mut k: usize = 0;
            assert(ms@.take(0) =~= Seq::<MissionVerification>::empty());
            while k < ms.len()
                invariant
                    k <= ms.len(),
                    label@ == mission_label(*e),
                    finding_views(findings@) == a + named_mission_findings_of(ms@.take(k as int), label@, e.id@),
                decreases ms.len() - k,
            {
                assert(ms@.take(k + 1).drop_last() =~= ms@.take(k as int));
                let m = &ms[k];
                let named = match &m.mission_name {
                    Some(n) => crate::text::str_eq(n.as_str(), label) || crate::text::str_eq(n.as_str(), e.id.as_str()),
                    None => false,
                };
                if named && !m.achievable {
                    merge_mission_report(m, findings);
                }
                assert(finding_views(findings@) =~= a + named_mission_findings_of(ms@.take(k + 1), label@, e.id@));
                k = k + 1;
            }
            assert(ms@.take(ms.len() as int) =~= ms@);
        },
        None => {},
    }
    let ghost b = finding_views(findings@);
    let rels = &registry.relationships;
    let mut parts: Vec<String> = Vec::new();
    let mut j: usize = 0;
    assert(rels@.take(0) =~= Seq::<EntityRelationship>::empty());
    while j < rels.len()
        invariant
            rels == &registry.relationships,
            j <= rels.len(),
            texts(parts@) == participants_of(rels@.take(j as int), e.id@),
        decreases rels.len() - j,
    {
        assert(rels@.take(j + 1).drop_last() =~= rels@.take(j as int));
        let r = &rels[j];
        let to_here = crate::text::str_eq(r.to_id.as_str(), e.id.as_str());
        let participates = match r.kind {
            EntityRelationshipKind::ParticipatesIn => true,
            _ => false,
        };
        if participates && (to_here || crate::text::str_eq(r.from_id.as_str(), e.id.as_str())) {
            let ghost before = texts(parts@);
            let other = if to_here { r.from_id.clone() } else { r.to_id.clone() };
            parts.push(other);
            assert(texts(parts@) =~= before.push(if r.to_id@ == e.id@ { r.from_id@ } else { r.to_id@ }));
        }
        j = j + 1;
    }
    assert(rels@.take(rels.len() as int) =~= rels@);
    missing_findings(registry, &parts, "mission", "Mission participant '", "' not found", findings);
    assert(finding_views(findings@) =~= start + mission_findings_of(*registry, *vf, *e));
}

/// The first operator entry with this id.
pub open spec fn human_named(hs: Seq<HumanVerifyFacts>, id: Seq<char>) -> Option<HumanVerifyFacts> {
    if exists|i: int| 0 <= i < hs.len() && (#[trigger] hs[i]).id@ == id {
        Some(hs[choose|i: int| 0 <= i < hs.len() && (#[trigger] hs[i]).id@ == id && forall|j: int|
            0 <= j < i ==> (#[trigger] hs[j]).id@ != id])
    } else {
        None
    }
}

/// Every certification is open-ended or expires today or later (dates
/// compared as text).
pub open spec fn certs_valid(h: HumanVerifyFacts, today: Seq<char>) -> bool {
    forall|i: int| 0 <= i < h.cert_expiries@.len() ==> match #[trigger] h.cert_expiries@[i] {
        Some(d) => !seq_lt(d@, today),
        None => true,
    }
}

/// Verifying an operator or team: availability and certifications.
pub open spec fn human_findings_of(vf: EntityVerifyFacts, e: EntityRecord) -> Seq<(Seq<char>, Seq<char>, Seq<char>, Seq<char>)> {
    match human_named(vf.humans@, e.id@) {
        Some(h) => (if !h.available {
            seq![fv("human"@, "error"@, "Operator '"@ + h.id@ + "' is not available"@, "human_registry"@)]
        } else {
            Seq::empty()
        }) + (if !certs_valid(h, vf.today@) {
            seq![fv("human"@, "error"@, "Operator '"@ + h.id@ + "' has expired or missing certifications"@, "human_registry"@)]
        } else {
            Seq::empty()
        }),
        None => if e.entity_type is Human {
            seq![fv("human"@, "warning"@, "Human entity '"@ + e.id@ + "' not found in human registry TOML"@, "human_registry"@)]
        } else {
            Seq::empty()
        },
    }
}

fn find_human<'a>(hs: &'a Vec<HumanVerifyFacts>, id: &str) -> (r: Option<&'a HumanVerifyFacts>)
    ensures
        match r {
            Some(h) => human_named(hs@, id@) == Some(*h),
            None => human_named(hs@, id@) is None,
        },
{
    let mut i: usize = 0;
    while i < hs.len()
        invariant
            i <= hs.len(),
            forall|j: int| 0 <= j < i ==> (#[trigger] hs@[j]).id@ != id@,
        decreases hs.len() - i,
    {
        if crate::text::str_eq(hs[i].id.as_str(), id) {
            proof {
                let k = choose|k: int|
                    0 <= k < hs@.len() && (#[trigger] hs@[k]).id@ == id@ && forall|j: int|
                        0 <= j < k ==> (#[trigger] hs@[j]).id@ != id@;
                if k < i {
                    assert(hs@[k].id@ != id@);
                } else if i < k {
                    assert(hs@[i as int].id@ != id@);
                }
            }
            return Some(&hs[i]);
        }
        i = i + 1;
    }
    None
}

fn verify_human_entity(vf: &EntityVerifyFacts, e: &EntityRecord, findings: &mut Vec<EntityVerifyFinding>)
    ensures
        finding_views(final(findings)@) == finding_views(old(findings)@) + human_findings_of(*vf, *e),
{
    let ghost start = finding_views(findings@);
    match find_human(&vf.humans, e.id.as_str()) {
        Some(h) => {
            if !h.available {
                push_finding(findings, "human", "error", concat3("Operator '", h.id.as_str(), "' is not available"), "human_registry");
            }
            let ghost a = finding_views(findings@);
            let mut valid = true;
            let mut k: usize = 0;
            while k < h.cert_expiries.len()
                invariant
                    k <= h.cert_expiries.len(),
                    valid == forall|x: int| 0 <= x < k ==> match #[trigger] h.cert_expiries@[x] {
                        Some(d) => !seq_lt(d@, vf.today@),
                        None => true,
                    },
                decreases h.cert_expiries.len() - k,
            {
                let ok = match &h.cert_expiries[k] {
                    Some(d) => !str_lt(d.as_str(), vf.today.as_str()),
                    None => true,
                };
                valid = valid && ok;
                k = k + 1;
            }
            if !valid {
                push_finding(
                    findings,
                    "human",
                    "error",
                    concat3("Operator '", h.id.as_str(), "' has expired or missing certifications"),
                    "human_registry",
                );
            }
        },
        None => {
            let human = match e.entity_type {
                EntityKind::Human => true,
                _ => false,
            };
            if human {
                push_finding(
                    findings,
                    "human",
                    "warning",
                    concat3("Human entity '", e.id.as_str(), "' not found in human registry TOML"),
                    "human_registry",
                );
            }
        },
    }
    assert(finding_views(findings@) =~= start + human_findings_of(*vf, *e));
}

/// Verifying a package: it should be among the resolved providers.
pub open spec fn package_findings_of(vf: EntityVerifyFacts, e: EntityRecord) -> Seq<(Seq<char>, Seq<char>, Seq<char>, Seq<char>)> {
    let pid = match e.package {
        Some(p) => p@,
        None => e.id@,
    };
    let known = has_text(vf.providers@, pid) || seq_starts_with(e.id@, "package-"@);
    if !known && vf.providers@.len() == 0 {
        seq![fv("package"@, "warning"@, "Package '"@ + pid + "' not listed in resolved providers"@, "package_manifest"@)]
    } else {
        Seq::empty()
    }
}

/// Verifying a provider: it should be among the resolved providers.
pub open spec fn provider_findings_of(vf: EntityVerifyFacts, e: EntityRecord) -> Seq<(Seq<char>, Seq<char>, Seq<char>, Seq<char>)> {
    let pid = match e.provider {
        Some(p) => p@,
        None => e.id@,
    };
    if !has_text(vf.providers@, pid) {
        seq![fv("provider"@, "warning"@, "Provider '"@ + pid + "' not in resolved provider list"@, "provider_registry"@)]
    } else {
        Seq::empty()
    }
}

/// Verifying a site: it should have children, and they should exist.
pub open spec fn facility_findings_of(reg: EntityRegistry, e: EntityRecord) -> Seq<(Seq<char>, Seq<char>, Seq<char>, Seq<char>)> {
    (if e.children_ids@.len() == 0 {
        seq![fv("facility"@, "info"@, "Facility entity '"@ + e.id@ + "' has no child zones or assets"@, "entity_snapshot"@)]
    } else {
        Seq::empty()
    }) + missing_findings_of(reg, texts(e.children_ids@), "facility"@, "Child entity '"@, "' not found for '"@ + e.id@ + "'"@)
}

/// Verifying an organization: it should own something or have children.
pub open spec fn organization_findings_of(reg: EntityRegistry, e: EntityRecord) -> Seq<(Seq<char>, Seq<char>, Seq<char>, Seq<char>)> {
    let owns = exists|j: int|
        0 <= j < reg.relationships@.len() && (#[trigger] reg.relationships@[j]).from_id@ == e.id@
            && reg.relationships@[j].kind is Owns;
    if !owns && e.children_ids@.len() == 0 {
        seq![fv("organization"@, "info"@, "Organization '"@ + e.id@ + "' has no owned fleets or children"@, "entity_graph"@)]
    } else {
        Seq::empty()
    }
}

/// Verifying a device: its pool entry's readiness and quarantine.
pub open spec fn device_entity_findings_of(hf: EntityHealthFacts, e: EntityRecord) -> Seq<(Seq<char>, Seq<char>, Seq<char>, Seq<char>)> {
    match device_named(hf.devices@, e.id@) {
        Some(d) => (if d.readiness_blocked {
            seq![fv("device"@, "error"@, "Device blocks readiness: "@ + joined(texts(d.blockers@), ", "@), "device_pool"@)]
        } else {
            Seq::empty()
        }) + (if d.quarantined {
            seq![fv("quarantine"@, "error"@, "Device quarantined: "@ + joined(texts(d.quarantine_reasons@), ", "@), "device_pool"@)]
        } else {
            Seq::empty()
        }),
        None => seq![fv("device"@, "warning"@, "Device entity '"@ + e.id@ + "' not found in device registry pool"@, "device_pool"@)],
    }
}

/// Any other entity should declare capabilities.
pub open spec fn generic_findings_of(e: EntityRecord) -> Seq<(Seq<char>, Seq<char>, Seq<char>, Seq<char>)> {
    if e.capabilities@.len() == 0 {
        seq![fv("capability"@, "info"@, "Entity '"@ + e.id@ + "' has no declared capabilities"@, "entity_snapshot"@)]
    } else {
        Seq::empty()
    }
}

/// The findings of the engine for the entity's kind.
pub open spec fn kind_findings_of(reg: EntityRegistry, hf: EntityHealthFacts, vf: EntityVerifyFacts, e: EntityRecord) -> Seq<
    (Seq<char>, Seq<char>, Seq<char>, Seq<char>),
> {
    match e.entity_type {
        EntityKind::Robot | EntityKind::Drone | EntityKind::Vehicle => robot_findings_of(reg, hf, vf, e.id@),
        EntityKind::Fleet | EntityKind::Swarm => fleet_findings_of(reg, hf, vf, e.id@),
        EntityKind::Mission => mission_findings_of(reg, vf, e),
        EntityKind::Human | EntityKind::Team => human_findings_of(vf, e),
        EntityKind::Package => package_findings_of(vf, e),
        EntityKind::Provider => provider_findings_of(vf, e),
        EntityKind::Facility | EntityKind::Building | EntityKind::Zone | EntityKind::Hazard => facility_findings_of(reg, e),
        EntityKind::Organization => organization_findings_of(reg, e),
        _ => if spec_is_device_kind(e.entity_type) {
            device_entity_findings_of(hf, e)
        } else {
            generic_findings_of(e)
        },
    }
}

fn kind_findings(
    registry: &EntityRegistry,
    hf: &EntityHealthFacts,
    vf: &EntityVerifyFacts,
    e: &EntityRecord,
    findings: &mut Vec<EntityVerifyFinding>,
)
    ensures
        finding_views(final(findings)@) == finding_views(old(findings)@) + kind_findings_of(*registry, *hf, *vf, *e),
{
    let ghost start = finding_views(findings@);
    match e.entity_type {
        EntityKind::Robot | EntityKind::Drone | EntityKind::Vehicle => verify_robot_entity(registry, hf, vf, e.id.as_str(), findings),
        EntityKind::Fleet | EntityKind::Swarm => verify_fleet_entity(registry, hf, vf, e.id.as_str(), findings),
        EntityKind::Mission => verify_mission_entity(registry, vf, e, findings),
        EntityKind::Human | EntityKind::Team => verify_human_entity(vf, e, findings),
        EntityKind::Package => {
            let pid: &str = match &e.package {
                Some(p) => p.as_str(),
                None => e.id.as_str(),
            };
            let known = contains_text(&vf.providers, pid) || str_starts_with(e.id.as_str(), "package-");
            if !known && vf.providers.len() == 0 {
                push_finding(findings, "package", "warning", concat3("Package '", pid, "' not listed in resolved providers"), "package_manifest");
            }
            assert(finding_views(findings@) =~= start + kind_findings_of(*registry, *hf, *vf, *e));
        },
        EntityKind::Provider => {
            let pid: &str = match &e.provider {
                Some(p) => p.as_str(),
                None => e.id.as_str(),
            };
            if !contains_text(&vf.providers, pid) {
                push_finding(findings, "provider", "warning", concat3("Provider '", pid, "' not in resolved provider list"), "provider_registry");
            }
            assert(finding_views(findings@) =~= start + kind_findings_of(*registry, *hf, *vf, *e));
        },
        EntityKind::Facility | EntityKind::Building | EntityKind::Zone | EntityKind::Hazard => {
            if e.children_ids.len() == 0 {
                push_finding(
                    findings,
                    "facility",
                    "info",
                    concat3("Facility entity '", e.id.as_str(), "' has no child zones or assets"),
                    "entity_snapshot",
                );
            }
            let suffix = concat3("' not found for '", e.id.as_str(), "'");
            missing_findings(registry, &e.children_ids, "facility", "Child entity '", suffix.as_str(), findings);
            assert(finding_views(findings@) =~= start + kind_findings_of(*registry, *hf, *vf, *e));
        },
        EntityKind::Organization => {
            let rels = &registry.relationships;
            let mut owns = false;
            let mut j: usize = 0;
            while j < rels.len()
                invariant
                    rels == &registry.relationships,
                    j <= rels.len(),
                    owns == exists|x: int| 0 <= x < j && (#[trigger] rels@[x]).from_id@ == e.id@ && rels@[x].kind is Owns,
                decreases rels.len() - j,
            {
                let is_owns = match rels[j].kind {
                    EntityRelationshipKind::Owns => true,
                    _ => false,
                };
                if is_owns && crate::text::str_eq(rels[j].from_id.as_str(), e.id.as_str()) {
                    owns = true;
                }
                j = j + 1;
            }
            if !owns && e.children_ids.len() == 0 {
                push_finding(
                    findings,
                    "organization",
                    "info",
                    concat3("Organization '", e.id.as_str(), "' has no owned fleets or children"),
                    "entity_graph",
                );
            }
            assert(finding_views(findings@) =~= start + kind_findings_of(*registry, *hf, *vf, *e));
        },
        _ => {
            if is_device_kind(e.entity_type) {
                match find_device(&hf.devices, e.id.as_str()) {
                    Some(d) => {
                        if d.readiness_blocked {
                            let j = join_texts(&d.blockers, ", ");
                            push_finding(findings, "device", "error", concat2("Device blocks readiness: ", j.as_str()), "device_pool");
                        }
                        if d.quarantined {
                            let j = join_texts(&d.quarantine_reasons, ", ");
                            push_finding(findings, "quarantine", "error", concat2("Device quarantined: ", j.as_str()), "device_pool");
                        }
                    },
                    None => {
                        push_finding(
                            findings,
                            "device",
                            "warning",
                            concat3("Device entity '", e.id.as_str(), "' not found in device registry pool"),
                            "device_pool",
                        );
                    },
                }
            } else if e.capabilities.len() == 0 {
                push_finding(
                    findings,
                    "capability",
                    "info",
                    concat3("Entity '", e.id.as_str(), "' has no declared capabilities"),
                    "entity_snapshot",
                );
            }
            assert(finding_views(findings@) =~= start + kind_findings_of(*registry, *hf, *vf, *e));
        },
    }
}

/// A `depends_on` relationship leads from `a` to `b`.
pub open spec fn depends_step(reg: EntityRegistry, a: Seq<char>, b: Seq<char>) -> bool {
    exists|j: int|
        0 <= j < reg.relationships@.len() && (#[trigger] reg.relationships@[j]).from_id@ == a
            && reg.relationships@[j].to_id@ == b && reg.relationships@[j].kind is DependsOn
}

/// `b` is reached from `a` along `depends_on` relationships (`a` itself
/// included).
pub open spec fn depends_reaches(reg: EntityRegistry, a: Seq<char>, b: Seq<char>) -> bool {
    exists|p: Seq<Seq<char>>|
        p.len() >= 1 && p[0] == a && p.last() == b && forall|i: int|
            0 <= i < p.len() - 1 ==> depends_step(reg, #[trigger] p[i], p[i + 1])
}

/// The dependency chain of an entity: every other entity it depends on,
/// directly or not, sorted and without repeats.
pub open spec fn chain_ok(reg: EntityRegistry, id: Seq<char>, chain: Seq<Seq<char>>) -> bool {
    &&& forall|i: int, j: int| 0 <= i < j < chain.len() ==> seq_lt(#[trigger] chain[i], #[trigger] chain[j])
    &&& forall|t: Seq<char>| chain.contains(t) <==> (t != id && depends_reaches(reg, id, t))
}

fn dependency_edges(registry: &EntityRegistry) -> (r: Vec<RecoveryGraphEdge>)
    ensures
        forall|a: Seq<char>, b: Seq<char>| #[trigger] step(r@, true, a, b) <==> depends_step(*registry, a, b),
{
    let rels = &registry.relationships;
    let mut out: Vec<RecoveryGraphEdge> = Vec::new();
    let mut j: usize = 0;
    while j < rels.len()
        invariant
            rels == &registry.relationships,
            j <= rels.len(),
            forall|k: int| 0 <= k < out@.len() ==> depends_step(*registry, (#[trigger] out@[k]).from@, out@[k].to@),
            forall|q: int|
                0 <= q < j && (#[trigger] rels@[q]).kind is DependsOn ==> step(out@, true, rels@[q].from_id@, rels@[q].to_id@),
        decreases rels.len() - j,
    {
        let ghost before = out@;
        let r = &rels[j];
        let dep = match r.kind {
            EntityRelationshipKind::DependsOn => true,
            _ => false,
        };
        if dep {
            out.push(link(r.from_id.as_str(), r.to_id.as_str()));
            proof {
                assert(depends_step(*registry, rels@[j as int].from_id@, rels@[j as int].to_id@));
                assert forall|q: int|
                    0 <= q <= j && (#[trigger] rels@[q]).kind is DependsOn implies step(out@, true, rels@[q].from_id@, rels@[q].to_id@) by {
                    if q < j {
                        let k = choose|k: int| 0 <= k < before.len() && edge_source(#[trigger] before[k], true) == rels@[q].from_id@
                            && edge_target(before[k], true) == rels@[q].to_id@;
                        assert(out@[k] == before[k]);
                    } else {
                        assert(edge_source(out@[before.len() as int], true) == rels@[q].from_id@);
                    }
                }
            }
        }
        j = j + 1;
    }
    proof {
        assert forall|a: Seq<char>, b: Seq<char>| #[trigger] step(out@, true, a, b) <==> depends_step(*registry, a, b) by {
            if step(out@, true, a, b) {
                let k = choose|k: int| 0 <= k < out@.len() && edge_source(#[trigger] out@[k], true) == a && edge_target(out@[k], true) == b;
                assert(depends_step(*registry, out@[k].from@, out@[k].to@));
            }
            if depends_step(*registry, a, b) {
                let q = choose|q: int|
                    0 <= q < rels@.len() && (#[trigger] rels@[q]).from_id@ == a && rels@[q].to_id@ == b && rels@[q].kind is DependsOn;
                assert(step(out@, true, rels@[q].from_id@, rels@[q].to_id@));
            }
        }
    }
    out
}

proof fn lemma_reaches_depends(reg: EntityRegistry, edges: Seq<RecoveryGraphEdge>, a: Seq<char>, b: Seq<char>)
    requires
        forall|x: Seq<char>, y: Seq<char>| #[trigger] step(edges, true, x, y) <==> depends_step(reg, x, y),
    ensures
        reaches(edges, true, a, b) <==> depends_reaches(reg, a, b),
{
    if reaches(edges, true, a, b) {
        let p = choose|p: Seq<Seq<char>>| #[trigger] is_walk(edges, true, p) && p[0] == a && p.last() == b;
        assert forall|i: int| 0 <= i < p.len() - 1 implies depends_step(reg, #[trigger] p[i], p[i + 1]) by {
            assert(step(edges, true, p[i], p[i + 1]));
        }
    }
    if depends_reaches(reg, a, b) {
        let p = choose|p: Seq<Seq<char>>|
            p.len() >= 1 && p[0] == a && p.last() == b && forall|i: int|
                0 <= i < p.len() - 1 ==> depends_step(reg, #[trigger] p[i], p[i + 1]);
        assert forall|i: int| 0 <= i < p.len() - 1 implies step(edges, true, #[trigger] p[i], p[i + 1]) by {
            assert(depends_step(reg, p[i], p[i + 1]));
        }
        assert(is_walk(edges, true, p));
    }
}

fn dependency_chain(registry: &EntityRegistry, id: &str) -> (r: Vec<String>)
    ensures
        chain_ok(*registry, id@, texts(r@)),
{
    let edges = dependency_edges(registry);
    let all = reachable_from(&edges, id, true);
    let chain = sorted_without(&all, id);
    proof {
        let t = texts(chain@);
        assert forall|x: Seq<char>| t.contains(x) <==> (x != id@ && depends_reaches(*registry, id@, x)) by {
            lemma_reaches_depends(*registry, edges@, id@, x);
            if t.contains(x) {
                let k = choose|k: int| 0 <= k < t.len() && t[k] == x;
                assert(chain@[k]@ == x);
            }
            if has_text(chain@, x) {
                let k = choose|k: int| 0 <= k < chain@.len() && #[trigger] chain@[k]@ == x;
                assert(t[k] == x);
            }
        }
        assert forall|i: int, j: int| 0 <= i < j < t.len() implies seq_lt(#[trigger] t[i], #[trigger] t[j]) by {
            assert(seq_lt(chain@[i]@, chain@[j]@));
        }
    }
    chain
}

/// Every finding of a verification, in order: the entity's own status, its
/// relationships, the given dependency findings, its kind's engine and the
/// configuration findings that name it.
pub open spec fn verify_findings_of(
    reg: EntityRegistry,
    hf: EntityHealthFacts,
    vf: EntityVerifyFacts,
    e: EntityRecord,
    deps: Seq<(Seq<char>, Seq<char>, Seq<char>, Seq<char>)>,
) -> Seq<(Seq<char>, Seq<char>, Seq<char>, Seq<char>)> {
    snapshot_findings_of(e) + relationship_findings_of(reg, reg.relationships@, e.id@) + deps + kind_findings_of(reg, hf, vf, e)
        + config_findings_of(vf.config_findings@, e.id@)
}

/// The findings of the missing entities of a dependency chain.
pub open spec fn dependency_findings_of(reg: EntityRegistry, chain: Seq<Seq<char>>) -> Seq<(Seq<char>, Seq<char>, Seq<char>, Seq<char>)> {
    missing_findings_of(reg, chain, "dependency"@, "Dependency chain references missing entity '"@, "'"@)
}

/// Some finding is an error.
pub open spec fn has_error(fs: Seq<(Seq<char>, Seq<char>, Seq<char>, Seq<char>)>) -> bool {
    exists|i: int| 0 <= i < fs.len() && (#[trigger] fs[i]).1 == "error"@
}

/// Verify any entity of the registry with the engine for its kind; `None`
/// when no entity has the id. The entity is compatible when no finding is
/// an error.
pub fn verify_entity(entity_id: &str, registry: &EntityRegistry, hf: &EntityHealthFacts, vf: &EntityVerifyFacts) -> (r:
    Option<EntityVerifyReport>)
    ensures
        match entity_named(*registry, entity_id@) {
            Some(e) => r matches Some(rep) && {
                &&& rep.entity_id@ == e.id@
                &&& rep.entity_type@ == e.entity_type.spec_as_str()
                &&& rep.health_status@ == e.health_status.spec_as_str()
                &&& rep.readiness_status@ == e.readiness_status.spec_as_str()
                &&& rep.trust_status@ == e.trust_status.spec_as_str()
                &&& texts(rep.capabilities@) == texts(e.capabilities@)
                &&& rep.relationships_checked as nat == touch_count(registry.relationships@, entity_id@)
                &&& if vf.include_dependencies {
                    exists|chain: Seq<Seq<char>>|
                        chain_ok(*registry, entity_id@, chain) && rep.dependencies_checked == chain.len()
                            && finding_views(rep.findings@) == verify_findings_of(
                            *registry,
                            *hf,
                            *vf,
                            e,
                            dependency_findings_of(*registry, chain),
                        )
                } else {
                    rep.dependencies_checked == 0 && finding_views(rep.findings@) == verify_findings_of(
                        *registry,
                        *hf,
                        *vf,
                        e,
                        Seq::empty(),
                    )
                }
                &&& rep.compatible == !has_error(finding_views(rep.findings@))
            },
            None => r is None,
        },
{
    let entity = match get_named(registry, entity_id) {
        Some(e) => e,
        None => {
            return None;
        },
    };
    let ghost e = *entity;
    proof {
        let q = choose|q: int| crate::recovery::entity::first_id(registry.entities@, entity_id@, q);
        assert(e.id@ == entity_id@);
    }
    let mut findings: Vec<EntityVerifyFinding> = Vec::new();
    snapshot_findings(entity, &mut findings);
    let checked = verify_relationship_targets(registry, entity_id, &mut findings);
    let ghost before_deps = finding_views(findings@);
    let mut deps_checked: usize = 0;
    let mut chain: Vec<String> = Vec::new();
    if vf.include_dependencies {
        chain = dependency_chain(registry, entity_id);
        missing_findings(registry, &chain, "dependency", "Dependency chain references missing entity '", "'", &mut findings);
        deps_checked = chain.len();
    }
    let ghost deps = if vf.include_dependencies { dependency_findings_of(*registry, texts(chain@)) } else { Seq::empty() };
    assert(finding_views(findings@) =~= before_deps + deps);
    kind_findings(registry, hf, vf, entity, &mut findings);
    merge_config_validation_findings(&vf.config_findings, entity_id, &mut findings);
    assert(finding_views(findings@) =~= verify_findings_of(*registry, *hf, *vf, e, deps));
    let mut compatible = true;
    let mut i: usize = 0;
    while i < findings.len()
        invariant
            i <= findings.len(),
            compatible == !exists|k: int| 0 <= k < i && (#[trigger] finding_views(findings@)[k]).1 == "error"@,
        decreases findings.len() - i,
    {
        assert(finding_views(findings@)[i as int].1 == findings@[i as int].severity@);
        if crate::text::str_eq(findings[i].severity.as_str(), "error") {
            compatible = false;
        }
        i = i + 1;
    }
    let mut caps: Vec<String> = Vec::new();
    let mut c: usize = 0;
    while c < entity.capabilities.len()
        invariant
            c <= entity.capabilities.len(),
            texts(caps@) == texts(entity.capabilities@).take(c as int),
        decreases entity.capabilities.len() - c,
    {
        let ghost before = texts(caps@);
        caps.push(entity.capabilities[c].clone());
        assert(texts(caps@) =~= before.push(entity.capabilities@[c as int]@));
        assert(texts(entity.capabilities@).take(c + 1) =~= texts(entity.capabilities@).take(c as int).push(entity.capabilities@[c as int]@));
        c = c + 1;
    }
    assert(texts(entity.capabilities@).take(entity.capabilities.len() as int) =~= texts(entity.capabilities@));
    proof {
        if vf.include_dependencies {
            assert(chain_ok(*registry, entity_id@, texts(chain@)));
        }
    }
    Some(EntityVerifyReport {
        entity_id: entity.id.clone(),
        entity_type: entity.entity_type.as_str().to_owned(),
        compatible,
        findings,
        capabilities: caps,
        relationships_checked: checked,
        dependencies_checked: deps_checked,
        health_status: entity.health_status.as_str().to_owned(),
        readiness_status: entity.readiness_status.as_str().to_owned(),
        trust_status: entity.trust_status.as_str().to_owned(),
    })
}
} // verus!
