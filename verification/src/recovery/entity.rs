//! The entity model that recovery reads: kinds, health, records,
//! relationships and the registry that holds them.
use vstd::prelude::*;
use crate::text::str_eq;

verus! {

/// Kind of a managed entity.
#[derive(Debug, Clone, Copy, PartialEq, Eq, Structural, Hash)]
pub enum EntityKind {
    Robot,
    Drone,
    Vehicle,
    Device,
    Sensor,
    Actuator,
    Camera,
    Gps,
    Gateway,
    Controller,
    Compute,
    Fleet,
    Swarm,
    Mission,
    Human,
    Team,
    Facility,
    Building,
    Zone,
    Package,
    Provider,
    Organization,
    Incident,
    Hazard,
}

impl EntityKind {
    pub open spec fn spec_as_str(self) -> Seq<char> {
        match self {
            EntityKind::Robot => "robot"@,
            EntityKind::Drone => "drone"@,
            EntityKind::Vehicle => "vehicle"@,
            EntityKind::Device => "device"@,
            EntityKind::Sensor => "sensor"@,
            EntityKind::Actuator => "actuator"@,
            EntityKind::Camera => "camera"@,
            EntityKind::Gps => "gps"@,
            EntityKind::Gateway => "gateway"@,
            EntityKind::Controller => "controller"@,
            EntityKind::Compute => "compute"@,
            EntityKind::Fleet => "fleet"@,
            EntityKind::Swarm => "swarm"@,
            EntityKind::Mission => "mission"@,
            EntityKind::Human => "human"@,
            EntityKind::Team => "team"@,
            EntityKind::Facility => "facility"@,
            EntityKind::Building => "building"@,
            EntityKind::Zone => "zone"@,
            EntityKind::Package => "package"@,
            EntityKind::Provider => "provider"@,
            EntityKind::Organization => "organization"@,
            EntityKind::Incident => "incident"@,
            EntityKind::Hazard => "hazard"@,
        }
    }

    /// Snake-case name of the kind.
    pub fn as_str(&self) -> (r: &'static str)
        ensures
            r@ == self.spec_as_str(),
    {
        match self {
            EntityKind::Robot => "robot",
            EntityKind::Drone => "drone",
            EntityKind::Vehicle => "vehicle",
            EntityKind::Device => "device",
            EntityKind::Sensor => "sensor",
            EntityKind::Actuator => "actuator",
            EntityKind::Camera => "camera",
            EntityKind::Gps => "gps",
            EntityKind::Gateway => "gateway",
            EntityKind::Controller => "controller",
            EntityKind::Compute => "compute",
            EntityKind::Fleet => "fleet",
            EntityKind::Swarm => "swarm",
            EntityKind::Mission => "mission",
            EntityKind::Human => "human",
            EntityKind::Team => "team",
            EntityKind::Facility => "facility",
            EntityKind::Building => "building",
            EntityKind::Zone => "zone",
            EntityKind::Package => "package",
            EntityKind::Provider => "provider",
            EntityKind::Organization => "organization",
            EntityKind::Incident => "incident",
            EntityKind::Hazard => "hazard",
        }
    }

    pub open spec fn spec_is_recoverable(self) -> bool {
        !(self is Incident || self is Hazard)
    }

    pub open spec fn spec_debug_name(self) -> Seq<char> {
        match self {
            EntityKind::Robot => "Robot"@,
            EntityKind::Drone => "Drone"@,
            EntityKind::Vehicle => "Vehicle"@,
            EntityKind::Device => "Device"@,
            EntityKind::Sensor => "Sensor"@,
            EntityKind::Actuator => "Actuator"@,
            EntityKind::Camera => "Camera"@,
            EntityKind::Gps => "Gps"@,
            EntityKind::Gateway => "Gateway"@,
            EntityKind::Controller => "Controller"@,
            EntityKind::Compute => "Compute"@,
            EntityKind::Fleet => "Fleet"@,
            EntityKind::Swarm => "Swarm"@,
            EntityKind::Mission => "Mission"@,
            EntityKind::Human => "Human"@,
            EntityKind::Team => "Team"@,
            EntityKind::Facility => "Facility"@,
            EntityKind::Building => "Building"@,
            EntityKind::Zone => "Zone"@,
            EntityKind::Package => "Package"@,
            EntityKind::Provider => "Provider"@,
            EntityKind::Organization => "Organization"@,
            EntityKind::Incident => "Incident"@,
            EntityKind::Hazard => "Hazard"@,
        }
    }

    /// The kind's variant name, as `Debug` prints it.
    pub fn debug_name(&self) -> (r: &'static str)
        ensures
            r@ == self.spec_debug_name(),
    {
        match self {
            EntityKind::Robot => "Robot",
            EntityKind::Drone => "Drone",
            EntityKind::Vehicle => "Vehicle",
            EntityKind::Device => "Device",
            EntityKind::Sensor => "Sensor",
            EntityKind::Actuator => "Actuator",
            EntityKind::Camera => "Camera",
            EntityKind::Gps => "Gps",
            EntityKind::Gateway => "Gateway",
            EntityKind::Controller => "Controller",
            EntityKind::Compute => "Compute",
            EntityKind::Fleet => "Fleet",
            EntityKind::Swarm => "Swarm",
            EntityKind::Mission => "Mission",
            EntityKind::Human => "Human",
            EntityKind::Team => "Team",
            EntityKind::Facility => "Facility",
            EntityKind::Building => "Building",
            EntityKind::Zone => "Zone",
            EntityKind::Package => "Package",
            EntityKind::Provider => "Provider",
            EntityKind::Organization => "Organization",
            EntityKind::Incident => "Incident",
            EntityKind::Hazard => "Hazard",
        }
    }

    /// Every kind, in declaration order.
    pub open spec fn all_kinds() -> Seq<EntityKind> {
        seq![
            EntityKind::Robot,
            EntityKind::Drone,
            EntityKind::Vehicle,
            EntityKind::Device,
            EntityKind::Sensor,
            EntityKind::Actuator,
            EntityKind::Camera,
            EntityKind::Gps,
            EntityKind::Gateway,
            EntityKind::Controller,
            EntityKind::Compute,
            EntityKind::Fleet,
            EntityKind::Swarm,
            EntityKind::Mission,
            EntityKind::Human,
            EntityKind::Team,
            EntityKind::Facility,
            EntityKind::Building,
            EntityKind::Zone,
            EntityKind::Package,
            EntityKind::Provider,
            EntityKind::Organization,
            EntityKind::Incident,
            EntityKind::Hazard
        ]
    }

    proof fn lemma_kind_listed(k: EntityKind)
        ensures
            EntityKind::all_kinds().contains(k),
    {
        let a = EntityKind::all_kinds();
        match k {
            EntityKind::Robot => assert(a[0] == k),
            EntityKind::Drone => assert(a[1] == k),
            EntityKind::Vehicle => assert(a[2] == k),
            EntityKind::Device => assert(a[3] == k),
            EntityKind::Sensor => assert(a[4] == k),
            EntityKind::Actuator => assert(a[5] == k),
            EntityKind::Camera => assert(a[6] == k),
            EntityKind::Gps => assert(a[7] == k),
            EntityKind::Gateway => assert(a[8] == k),
            EntityKind::Controller => assert(a[9] == k),
            EntityKind::Compute => assert(a[10] == k),
            EntityKind::Fleet => assert(a[11] == k),
            EntityKind::Swarm => assert(a[12] == k),
            EntityKind::Mission => assert(a[13] == k),
            EntityKind::Human => assert(a[14] == k),
            EntityKind::Team => assert(a[15] == k),
            EntityKind::Facility => assert(a[16] == k),
            EntityKind::Building => assert(a[17] == k),
            EntityKind::Zone => assert(a[18] == k),
            EntityKind::Package => assert(a[19] == k),
            EntityKind::Provider => assert(a[20] == k),
            EntityKind::Organization => assert(a[21] == k),
            EntityKind::Incident => assert(a[22] == k),
            EntityKind::Hazard => assert(a[23] == k),
        }
    }

    /// The length and first letter of the kind's name, which tell the
    /// kinds apart.
    pub open spec fn name_key(self) -> (nat, char) {
        match self {
            EntityKind::Robot => (5, 'r'),
            EntityKind::Drone => (5, 'd'),
            EntityKind::Vehicle => (7, 'v'),
            EntityKind::Device => (6, 'd'),
            EntityKind::Sensor => (6, 's'),
            EntityKind::Actuator => (8, 'a'),
            EntityKind::Camera => (6, 'c'),
            EntityKind::Gps => (3, 'g'),
            EntityKind::Gateway => (7, 'g'),
            EntityKind::Controller => (10, 'c'),
            EntityKind::Compute => (7, 'c'),
            EntityKind::Fleet => (5, 'f'),
            EntityKind::Swarm => (5, 's'),
            EntityKind::Mission => (7, 'm'),
            EntityKind::Human => (5, 'h'),
            EntityKind::Team => (4, 't'),
            EntityKind::Facility => (8, 'f'),
            EntityKind::Building => (8, 'b'),
            EntityKind::Zone => (4, 'z'),
            EntityKind::Package => (7, 'p'),
            EntityKind::Provider => (8, 'p'),
            EntityKind::Organization => (12, 'o'),
            EntityKind::Incident => (8, 'i'),
            EntityKind::Hazard => (6, 'h'),
        }
    }

    proof fn lemma_name_key(self)
        ensures
            self.spec_as_str().len() == self.name_key().0,
            self.spec_as_str()[0] == self.name_key().1,
    {
        match self {
            EntityKind::Robot => reveal_strlit("robot"),
            EntityKind::Drone => reveal_strlit("drone"),
            EntityKind::Vehicle => reveal_strlit("vehicle"),
            EntityKind::Device => reveal_strlit("device"),
            EntityKind::Sensor => reveal_strlit("sensor"),
            EntityKind::Actuator => reveal_strlit("actuator"),
            EntityKind::Camera => reveal_strlit("camera"),
            EntityKind::Gps => reveal_strlit("gps"),
            EntityKind::Gateway => reveal_strlit("gateway"),
            EntityKind::Controller => reveal_strlit("controller"),
            EntityKind::Compute => reveal_strlit("compute"),
            EntityKind::Fleet => reveal_strlit("fleet"),
            EntityKind::Swarm => reveal_strlit("swarm"),
            EntityKind::Mission => reveal_strlit("mission"),
            EntityKind::Human => reveal_strlit("human"),
            EntityKind::Team => reveal_strlit("team"),
            EntityKind::Facility => reveal_strlit("facility"),
            EntityKind::Building => reveal_strlit("building"),
            EntityKind::Zone => reveal_strlit("zone"),
            EntityKind::Package => reveal_strlit("package"),
            EntityKind::Provider => reveal_strlit("provider"),
            EntityKind::Organization => reveal_strlit("organization"),
            EntityKind::Incident => reveal_strlit("incident"),
            EntityKind::Hazard => reveal_strlit("hazard"),
        }
    }

    /// No two kinds share a name, so a kind's name reads back as the kind.
    pub proof fn law_kind_name_reads_back(a: EntityKind, b: EntityKind)
        ensures
            a.spec_as_str() == b.spec_as_str() ==> a == b,
    {
        a.lemma_name_key();
        b.lemma_name_key();
    }

    /// The kind whose snake-case name is `s`, if any.
    pub fn parse_name(s: &str) -> (r: Option<EntityKind>)
        ensures
            match r {
                Some(k) => k.spec_as_str() == s@,
                None => forall|k: EntityKind| #[trigger] k.spec_as_str() != s@,
            },
            forall|k: EntityKind| #[trigger] k.spec_as_str() == s@ ==> r == Some(k),
    {
        let all: Vec<EntityKind> = vec![
            EntityKind::Robot,
            EntityKind::Drone,
            EntityKind::Vehicle,
            EntityKind::Device,
            EntityKind::Sensor,
            EntityKind::Actuator,
            EntityKind::Camera,
            EntityKind::Gps,
            EntityKind::Gateway,
            EntityKind::Controller,
            EntityKind::Compute,
            EntityKind::Fleet,
            EntityKind::Swarm,
            EntityKind::Mission,
            EntityKind::Human,
            EntityKind::Team,
            EntityKind::Facility,
            EntityKind::Building,
            EntityKind::Zone,
            EntityKind::Package,
            EntityKind::Provider,
            EntityKind::Organization,
            EntityKind::Incident,
            EntityKind::Hazard
        ];
        assert(all@ =~= EntityKind::all_kinds());
        let mut i: usize = 0;
        while i < all.len()
            invariant
                all@ == EntityKind::all_kinds(),
                i <= all.len(),
                forall|j: int| 0 <= j < i ==> (#[trigger] all@[j]).spec_as_str() != s@,
            decreases all.len() - i,
        {
            if str_eq(all[i].as_str(), s) {
                proof {
                    assert forall|k: EntityKind| #[trigger] k.spec_as_str() == s@ implies Some(all@[i as int]) == Some(k) by {
                        EntityKind::law_kind_name_reads_back(k, all@[i as int]);
                    }
                }
                return Some(all[i]);
            }
            i = i + 1;
        }
        proof {
            assert forall|k: EntityKind| #[trigger] k.spec_as_str() != s@ by {
                EntityKind::lemma_kind_listed(k);
                let j = choose|j: int| 0 <= j < all@.len() && all@[j] == k;
                assert(all@[j].spec_as_str() != s@);
            }
        }
        None
    }

    /// Incidents and hazards are tracked but never recovered.
    pub fn is_recoverable(&self) -> (r: bool)
        ensures
            r == self.spec_is_recoverable(),
    {
        !matches!(self, EntityKind::Incident | EntityKind::Hazard)
    }
}

/// Health of an entity.
#[derive(Debug, Clone, Copy, PartialEq, Eq, Structural, Hash)]
pub enum EntityHealthStatus {
    Healthy,
    Warning,
    Degraded,
    Critical,
    Offline,
    Unknown,
}

impl EntityHealthStatus {
    pub open spec fn spec_as_str(self) -> Seq<char> {
        match self {
            EntityHealthStatus::Healthy => "healthy"@,
            EntityHealthStatus::Warning => "warning"@,
            EntityHealthStatus::Degraded => "degraded"@,
            EntityHealthStatus::Critical => "critical"@,
            EntityHealthStatus::Offline => "offline"@,
            EntityHealthStatus::Unknown => "unknown"@,
        }
    }

    /// Snake-case name of the health status.
    pub fn as_str(&self) -> (r: &'static str)
        ensures
            r@ == self.spec_as_str(),
    {
        match self {
            EntityHealthStatus::Healthy => "healthy",
            EntityHealthStatus::Warning => "warning",
            EntityHealthStatus::Degraded => "degraded",
            EntityHealthStatus::Critical => "critical",
            EntityHealthStatus::Offline => "offline",
            EntityHealthStatus::Unknown => "unknown",
        }
    }

    pub open spec fn spec_debug_name(self) -> Seq<char> {
        match self {
            EntityHealthStatus::Healthy => "Healthy"@,
            EntityHealthStatus::Warning => "Warning"@,
            EntityHealthStatus::Degraded => "Degraded"@,
            EntityHealthStatus::Critical => "Critical"@,
            EntityHealthStatus::Offline => "Offline"@,
            EntityHealthStatus::Unknown => "Unknown"@,
        }
    }

    /// The status's variant name, as `Debug` prints it.
    pub fn debug_name(&self) -> (r: &'static str)
        ensures
            r@ == self.spec_debug_name(),
    {
        match self {
            EntityHealthStatus::Healthy => "Healthy",
            EntityHealthStatus::Warning => "Warning",
            EntityHealthStatus::Degraded => "Degraded",
            EntityHealthStatus::Critical => "Critical",
            EntityHealthStatus::Offline => "Offline",
            EntityHealthStatus::Unknown => "Unknown",
        }
    }

    /// Degraded, critical or offline.
    pub open spec fn is_impaired(self) -> bool {
        self is Degraded || self is Critical || self is Offline
    }
}

/// Readiness of an entity as the registry records it.
#[derive(Debug, Clone, Copy, PartialEq, Eq, Structural, Hash)]
pub enum EntityReadinessStatus {
    Ready,
    NotReady,
    Unknown,
}

impl EntityReadinessStatus {
    pub open spec fn spec_as_str(self) -> Seq<char> {
        match self {
            EntityReadinessStatus::Ready => "ready"@,
            EntityReadinessStatus::NotReady => "not_ready"@,
            EntityReadinessStatus::Unknown => "unknown"@,
        }
    }

    /// Snake-case name of the readiness status.
    pub fn as_str(&self) -> (r: &'static str)
        ensures
            r@ == self.spec_as_str(),
    {
        match self {
            EntityReadinessStatus::Ready => "ready",
            EntityReadinessStatus::NotReady => "not_ready",
            EntityReadinessStatus::Unknown => "unknown",
        }
    }
}

/// Trust status of an entity.
#[derive(Debug, Clone, Copy, PartialEq, Eq, Structural, Hash)]
pub enum EntityTrustStatus {
    Unknown,
    Trusted,
    Untrusted,
    Compromised,
}

impl EntityTrustStatus {
    pub open spec fn spec_as_str(self) -> Seq<char> {
        match self {
            EntityTrustStatus::Unknown => "unknown"@,
            EntityTrustStatus::Trusted => "trusted"@,
            EntityTrustStatus::Untrusted => "untrusted"@,
            EntityTrustStatus::Compromised => "compromised"@,
        }
    }

    /// Snake-case name of the trust status.
    pub fn as_str(&self) -> (r: &'static str)
        ensures
            r@ == self.spec_as_str(),
    {
        match self {
            EntityTrustStatus::Unknown => "unknown",
            EntityTrustStatus::Trusted => "trusted",
            EntityTrustStatus::Untrusted => "untrusted",
            EntityTrustStatus::Compromised => "compromised",
        }
    }
}

/// Kind of a relationship between two entities.
#[derive(Debug, Clone, Copy, PartialEq, Eq, Structural, Hash)]
pub enum EntityRelationshipKind {
    DependsOn,
    Consumes,
    Controls,
    Contains,
    Owns,
    ConnectedTo,
    ParticipatesIn,
}

impl EntityRelationshipKind {
    pub open spec fn spec_as_str(self) -> Seq<char> {
        match self {
            EntityRelationshipKind::DependsOn => "depends_on"@,
            EntityRelationshipKind::Consumes => "consumes"@,
            EntityRelationshipKind::Controls => "controls"@,
            EntityRelationshipKind::Contains => "contains"@,
            EntityRelationshipKind::Owns => "owns"@,
            EntityRelationshipKind::ConnectedTo => "connected_to"@,
            EntityRelationshipKind::ParticipatesIn => "participates_in"@,
        }
    }

    /// Snake-case name of the relationship kind.
    pub fn as_str(&self) -> (r: &'static str)
        ensures
            r@ == self.spec_as_str(),
    {
        match self {
            EntityRelationshipKind::DependsOn => "depends_on",
            EntityRelationshipKind::Consumes => "consumes",
            EntityRelationshipKind::Controls => "controls",
            EntityRelationshipKind::Contains => "contains",
            EntityRelationshipKind::Owns => "owns",
            EntityRelationshipKind::ConnectedTo => "connected_to",
            EntityRelationshipKind::ParticipatesIn => "participates_in",
        }
    }

    pub open spec fn spec_debug_name(self) -> Seq<char> {
        match self {
            EntityRelationshipKind::DependsOn => "DependsOn"@,
            EntityRelationshipKind::Consumes => "Consumes"@,
            EntityRelationshipKind::Controls => "Controls"@,
            EntityRelationshipKind::Contains => "Contains"@,
            EntityRelationshipKind::Owns => "Owns"@,
            EntityRelationshipKind::ConnectedTo => "ConnectedTo"@,
            EntityRelationshipKind::ParticipatesIn => "ParticipatesIn"@,
        }
    }

    /// The kind's variant name, as `Debug` prints it.
    pub fn debug_name(&self) -> (r: &'static str)
        ensures
            r@ == self.spec_debug_name(),
    {
        match self {
            EntityRelationshipKind::DependsOn => "DependsOn",
            EntityRelationshipKind::Consumes => "Consumes",
            EntityRelationshipKind::Controls => "Controls",
            EntityRelationshipKind::Contains => "Contains",
            EntityRelationshipKind::Owns => "Owns",
            EntityRelationshipKind::ConnectedTo => "ConnectedTo",
            EntityRelationshipKind::ParticipatesIn => "ParticipatesIn",
        }
    }
}

/// One managed entity as recovery sees it.
#[derive(Debug, Clone)]
pub struct EntityRecord {
    pub id: String,
    pub entity_type: EntityKind,
    pub health_status: EntityHealthStatus,
    pub readiness_status: EntityReadinessStatus,
    pub trust_status: EntityTrustStatus,
    pub name: Option<String>,
    pub display_name: Option<String>,
    pub parent_id: Option<String>,
    pub children_ids: Vec<String>,
    pub capabilities: Vec<String>,
    pub package: Option<String>,
    pub provider: Option<String>,
}

/// A directed relationship between two entities.
#[derive(Debug, Clone)]
pub struct EntityRelationship {
    pub from_id: String,
    pub to_id: String,
    pub kind: EntityRelationshipKind,
}

/// All entities, in listing order, and their relationships.
#[derive(Debug, Clone)]
pub struct EntityRegistry {
    pub entities: Vec<EntityRecord>,
    pub relationships: Vec<EntityRelationship>,
}

impl EntityRegistry {
    /// Position of the entity with this id (the first, if ids repeat).
    pub fn position(&self, id: &str) -> (r: Option<usize>)
        ensures
            match r {
                Some(i) => i < self.entities.len() && self.entities@[i as int].id@ == id@
                    && forall|j: int| 0 <= j < i ==> #[trigger] self.entities@[j].id@ != id@,
                None => forall|j: int|
                    0 <= j < self.entities.len() ==> #[trigger] self.entities@[j].id@ != id@,
            },
    {
        let mut i: usize = 0;
        while i < self.entities.len()
            invariant
                i <= self.entities.len(),
                forall|j: int| 0 <= j < i ==> #[trigger] self.entities@[j].id@ != id@,
            decreases self.entities.len() - i,
        {
            if str_eq(self.entities[i].id.as_str(), id) {
                return Some(i);
            }
            i = i + 1;
        }
        None
    }

    /// The entity with this id (the first, if ids repeat).
    pub fn get(&self, id: &str) -> (r: Option<&EntityRecord>)
        ensures
            match r {
                Some(e) => exists|i: int|
                    0 <= i < self.entities.len() && self.entities@[i] == *e && e.id@ == id@
                    && forall|j: int| 0 <= j < i ==> #[trigger] self.entities@[j].id@ != id@,
                None => forall|j: int|
                    0 <= j < self.entities.len() ==> #[trigger] self.entities@[j].id@ != id@,
            },
    {
        match self.position(id) {
            Some(i) => Some(&self.entities[i]),
            None => None,
        }
    }

    /// All entities, in listing order.
    pub fn list(&self) -> (r: &Vec<EntityRecord>)
        ensures
            r@ == self.entities@,
    {
        &self.entities
    }
}

/// `es[i]` is the first entity with this id.
pub open spec fn first_id(es: Seq<EntityRecord>, id: Seq<char>, i: int) -> bool {
    0 <= i < es.len() && es[i].id@ == id && forall|j: int| 0 <= j < i ==> (#[trigger] es[j]).id@ != id
}

/// The first entity of the registry with this id.
pub open spec fn entity_named(reg: EntityRegistry, id: Seq<char>) -> Option<EntityRecord> {
    if exists|i: int| first_id(reg.entities@, id, i) {
        Some(reg.entities@[choose|i: int| first_id(reg.entities@, id, i)])
    } else {
        None
    }
}

pub proof fn lemma_first_id_unique(es: Seq<EntityRecord>, id: Seq<char>, i: int, k: int)
    requires
        first_id(es, id, i),
        first_id(es, id, k),
    ensures
        i == k,
{
    if i < k {
        assert(es[i].id@ != id);
    } else if k < i {
        assert(es[k].id@ != id);
    }
}

/// The first entity of the registry with this id.
pub fn get_named<'a>(registry: &'a EntityRegistry, id: &str) -> (r: Option<&'a EntityRecord>)
    ensures
        match r {
            Some(e) => entity_named(*registry, id@) == Some(*e),
            None => entity_named(*registry, id@) is None,
        },
{
    match registry.position(id) {
        Some(i) => {
            proof {
                assert(first_id(registry.entities@, id@, i as int));
                let k = choose|k: int| first_id(registry.entities@, id@, k);
                lemma_first_id_unique(registry.entities@, id@, i as int, k);
            }
            Some(&registry.entities[i])
        },
        None => {
            proof {
                if exists|k: int| first_id(registry.entities@, id@, k) {
                    let k = choose|k: int| first_id(registry.entities@, id@, k);
                    assert(registry.entities@[k].id@ != id@);
                }
            }
            None
        },
    }
}

} // verus!
