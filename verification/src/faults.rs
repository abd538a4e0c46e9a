//! Runtime faults: health status, fault kinds, diagnosis, recovery
//! recommendations, readiness impact, trace events and report escaping.
use vstd::prelude::*;
use crate::text::{occurs_at, concat2, concat3, push_char, seq_contains, seq_starts_with, str_contains,
    str_eq, str_starts_with, to_lowercase, unicode_lower, chars_of};
use crate::readiness::severity::ReadinessSeverity;

verus! {

/// Overall runtime health status.
#[derive(Debug, Clone, Copy, PartialEq, Eq, Structural)]
pub enum RuntimeHealthStatus {
    Healthy,
    Warning,
    Degraded,
    Critical,
    Crashed,
    Rebooted,
    Unknown,
}

impl RuntimeHealthStatus {
    pub open spec fn spec_as_str(self) -> Seq<char> {
        match self {
            RuntimeHealthStatus::Healthy => "Healthy"@,
            RuntimeHealthStatus::Warning => "Warning"@,
            RuntimeHealthStatus::Degraded => "Degraded"@,
            RuntimeHealthStatus::Critical => "Critical"@,
            RuntimeHealthStatus::Crashed => "Crashed"@,
            RuntimeHealthStatus::Rebooted => "Rebooted"@,
            RuntimeHealthStatus::Unknown => "Unknown"@,
        }
    }

    /// The status's name.
    pub fn as_str(&self) -> (r: &'static str)
        ensures
            r@ == self.spec_as_str(),
    {
        match self {
            RuntimeHealthStatus::Healthy => "Healthy",
            RuntimeHealthStatus::Warning => "Warning",
            RuntimeHealthStatus::Degraded => "Degraded",
            RuntimeHealthStatus::Critical => "Critical",
            RuntimeHealthStatus::Crashed => "Crashed",
            RuntimeHealthStatus::Rebooted => "Rebooted",
            RuntimeHealthStatus::Unknown => "Unknown",
        }
    }

    /// How severe the status is, from healthy (0) to unknown (6).
    pub open spec fn rank(self) -> u8 {
        match self {
            RuntimeHealthStatus::Healthy => 0,
            RuntimeHealthStatus::Warning => 1,
            RuntimeHealthStatus::Degraded => 2,
            RuntimeHealthStatus::Rebooted => 3,
            RuntimeHealthStatus::Critical => 4,
            RuntimeHealthStatus::Crashed => 5,
            RuntimeHealthStatus::Unknown => 6,
        }
    }

    /// How severe the status is, from healthy (0) to unknown (6).
    pub fn severity_rank(&self) -> (r: u8)
        ensures
            r == self.rank(),
    {
        match self {
            RuntimeHealthStatus::Healthy => 0,
            RuntimeHealthStatus::Warning => 1,
            RuntimeHealthStatus::Degraded => 2,
            RuntimeHealthStatus::Rebooted => 3,
            RuntimeHealthStatus::Critical => 4,
            RuntimeHealthStatus::Crashed => 5,
            RuntimeHealthStatus::Unknown => 6,
        }
    }
}

impl Default for RuntimeHealthStatus {
    fn default() -> (r: RuntimeHealthStatus)
        ensures
            r == RuntimeHealthStatus::Unknown,
    {
        RuntimeHealthStatus::Unknown
    }
}

/// Two statuses of the same severity are the same status.
pub proof fn law_status_rank_injective(a: RuntimeHealthStatus, b: RuntimeHealthStatus)
    ensures
        a.rank() == b.rank() ==> a == b,
{
}

/// Kind of runtime fault detected.
#[derive(Debug, Clone, Copy, PartialEq, Eq, Structural)]
pub enum RuntimeFaultKind {
    MemoryLeak,
    ProcessCrash,
    RuntimePanic,
    UnexpectedReboot,
    OsReboot,
    WatchdogTimeout,
    OutOfMemory,
    Deadlock,
    TaskStarvation,
    ProviderCrash,
    PackageCrash,
    SensorDriverCrash,
    ActuatorDriverCrash,
    NetworkStackCrash,
    RestartLoop,
    AbnormalShutdown,
    CpuOverload,
    MemoryPressure,
    DiskPressure,
    TelemetryDrop,
    HeartbeatLoss,
}

impl RuntimeFaultKind {
    pub open spec fn spec_as_str(self) -> Seq<char> {
        match self {
            RuntimeFaultKind::MemoryLeak => "memory_leak"@,
            RuntimeFaultKind::ProcessCrash => "process_crash"@,
            RuntimeFaultKind::RuntimePanic => "runtime_panic"@,
            RuntimeFaultKind::UnexpectedReboot => "unexpected_reboot"@,
            RuntimeFaultKind::OsReboot => "os_reboot"@,
            RuntimeFaultKind::WatchdogTimeout => "watchdog_timeout"@,
            RuntimeFaultKind::OutOfMemory => "out_of_memory"@,
            RuntimeFaultKind::Deadlock => "deadlock"@,
            RuntimeFaultKind::TaskStarvation => "task_starvation"@,
            RuntimeFaultKind::ProviderCrash => "provider_crash"@,
            RuntimeFaultKind::PackageCrash => "package_crash"@,
            RuntimeFaultKind::SensorDriverCrash => "sensor_driver_crash"@,
            RuntimeFaultKind::ActuatorDriverCrash => "actuator_driver_crash"@,
            RuntimeFaultKind::NetworkStackCrash => "network_stack_crash"@,
            RuntimeFaultKind::RestartLoop => "restart_loop"@,
            RuntimeFaultKind::AbnormalShutdown => "abnormal_shutdown"@,
            RuntimeFaultKind::CpuOverload => "cpu_overload"@,
            RuntimeFaultKind::MemoryPressure => "memory_pressure"@,
            RuntimeFaultKind::DiskPressure => "disk_pressure"@,
            RuntimeFaultKind::TelemetryDrop => "telemetry_drop"@,
            RuntimeFaultKind::HeartbeatLoss => "heartbeat_loss"@,
        }
    }

    /// The length and first two letters of the kind's name, which tell the
    /// kinds apart.
    pub open spec fn name_key(self) -> (nat, char, char) {
        match self {
            RuntimeFaultKind::MemoryLeak => (11, 'm', 'e'),
            RuntimeFaultKind::ProcessCrash => (13, 'p', 'r'),
            RuntimeFaultKind::RuntimePanic => (13, 'r', 'u'),
            RuntimeFaultKind::UnexpectedReboot => (17, 'u', 'n'),
            RuntimeFaultKind::OsReboot => (9, 'o', 's'),
            RuntimeFaultKind::WatchdogTimeout => (16, 'w', 'a'),
            RuntimeFaultKind::OutOfMemory => (13, 'o', 'u'),
            RuntimeFaultKind::Deadlock => (8, 'd', 'e'),
            RuntimeFaultKind::TaskStarvation => (15, 't', 'a'),
            RuntimeFaultKind::ProviderCrash => (14, 'p', 'r'),
            RuntimeFaultKind::PackageCrash => (13, 'p', 'a'),
            RuntimeFaultKind::SensorDriverCrash => (19, 's', 'e'),
            RuntimeFaultKind::ActuatorDriverCrash => (21, 'a', 'c'),
            RuntimeFaultKind::NetworkStackCrash => (19, 'n', 'e'),
            RuntimeFaultKind::RestartLoop => (12, 'r', 'e'),
            RuntimeFaultKind::AbnormalShutdown => (17, 'a', 'b'),
            RuntimeFaultKind::CpuOverload => (12, 'c', 'p'),
            RuntimeFaultKind::MemoryPressure => (15, 'm', 'e'),
            RuntimeFaultKind::DiskPressure => (13, 'd', 'i'),
            RuntimeFaultKind::TelemetryDrop => (14, 't', 'e'),
            RuntimeFaultKind::HeartbeatLoss => (14, 'h', 'e'),
        }
    }

    proof fn lemma_name_key(self)
        ensures
            self.spec_as_str().len() == self.name_key().0,
            self.spec_as_str()[0] == self.name_key().1,
            self.spec_as_str()[1] == self.name_key().2,
    {
        match self {
            RuntimeFaultKind::MemoryLeak => reveal_strlit("memory_leak"),
            RuntimeFaultKind::ProcessCrash => reveal_strlit("process_crash"),
            RuntimeFaultKind::RuntimePanic => reveal_strlit("runtime_panic"),
            RuntimeFaultKind::UnexpectedReboot => reveal_strlit("unexpected_reboot"),
            RuntimeFaultKind::OsReboot => reveal_strlit("os_reboot"),
            RuntimeFaultKind::WatchdogTimeout => reveal_strlit("watchdog_timeout"),
            RuntimeFaultKind::OutOfMemory => reveal_strlit("out_of_memory"),
            RuntimeFaultKind::Deadlock => reveal_strlit("deadlock"),
            RuntimeFaultKind::TaskStarvation => reveal_strlit("task_starvation"),
            RuntimeFaultKind::ProviderCrash => reveal_strlit("provider_crash"),
            RuntimeFaultKind::PackageCrash => reveal_strlit("package_crash"),
            RuntimeFaultKind::SensorDriverCrash => reveal_strlit("sensor_driver_crash"),
            RuntimeFaultKind::ActuatorDriverCrash => reveal_strlit("actuator_driver_crash"),
            RuntimeFaultKind::NetworkStackCrash => reveal_strlit("network_stack_crash"),
            RuntimeFaultKind::RestartLoop => reveal_strlit("restart_loop"),
            RuntimeFaultKind::AbnormalShutdown => reveal_strlit("abnormal_shutdown"),
            RuntimeFaultKind::CpuOverload => reveal_strlit("cpu_overload"),
            RuntimeFaultKind::MemoryPressure => reveal_strlit("memory_pressure"),
            RuntimeFaultKind::DiskPressure => reveal_strlit("disk_pressure"),
            RuntimeFaultKind::TelemetryDrop => reveal_strlit("telemetry_drop"),
            RuntimeFaultKind::HeartbeatLoss => reveal_strlit("heartbeat_loss"),
        }
    }

    /// Each kind has a name of its own.
    pub proof fn law_kind_names_distinct(a: RuntimeFaultKind, b: RuntimeFaultKind)
        ensures
            a.spec_as_str() == b.spec_as_str() ==> a == b,
    {
        a.lemma_name_key();
        b.lemma_name_key();
    }

    /// The kind's snake-case name.
    pub fn as_str(&self) -> (r: &'static str)
        ensures
            r@ == self.spec_as_str(),
    {
        match self {
            RuntimeFaultKind::MemoryLeak => "memory_leak",
            RuntimeFaultKind::ProcessCrash => "process_crash",
            RuntimeFaultKind::RuntimePanic => "runtime_panic",
            RuntimeFaultKind::UnexpectedReboot => "unexpected_reboot",
            RuntimeFaultKind::OsReboot => "os_reboot",
            RuntimeFaultKind::WatchdogTimeout => "watchdog_timeout",
            RuntimeFaultKind::OutOfMemory => "out_of_memory",
            RuntimeFaultKind::Deadlock => "deadlock",
            RuntimeFaultKind::TaskStarvation => "task_starvation",
            RuntimeFaultKind::ProviderCrash => "provider_crash",
            RuntimeFaultKind::PackageCrash => "package_crash",
            RuntimeFaultKind::SensorDriverCrash => "sensor_driver_crash",
            RuntimeFaultKind::ActuatorDriverCrash => "actuator_driver_crash",
            RuntimeFaultKind::NetworkStackCrash => "network_stack_crash",
            RuntimeFaultKind::RestartLoop => "restart_loop",
            RuntimeFaultKind::AbnormalShutdown => "abnormal_shutdown",
            RuntimeFaultKind::CpuOverload => "cpu_overload",
            RuntimeFaultKind::MemoryPressure => "memory_pressure",
            RuntimeFaultKind::DiskPressure => "disk_pressure",
            RuntimeFaultKind::TelemetryDrop => "telemetry_drop",
            RuntimeFaultKind::HeartbeatLoss => "heartbeat_loss",
        }
    }

    /// A process, panic, provider or package crash.
    pub open spec fn is_crash(self) -> bool {
        self is ProcessCrash || self is RuntimePanic || self is ProviderCrash || self is PackageCrash
    }
}

/// Supporting evidence for a fault diagnosis.
#[derive(Debug, Clone, PartialEq, Eq)]
pub struct FaultEvidence {
    pub metric: Option<String>,
    pub value: Option<String>,
    pub threshold: Option<String>,
    pub boot_id: Option<String>,
    pub exit_code: Option<i32>,
    pub stack_trace: Option<String>,
    pub related_events: Vec<String>,
}

/// Recovery action recommendation for a fault.
#[derive(Debug, Clone, PartialEq, Eq)]
pub struct FaultRecoveryAction {
    pub action: String,
    pub target: String,
    pub requires_approval: bool,
    pub safety_validated: bool,
}

/// The view of a recovery action.
pub open spec fn action_view(a: FaultRecoveryAction) -> (Seq<char>, Seq<char>, bool, bool) {
    (a.action@, a.target@, a.requires_approval, a.safety_validated)
}

/// The views of a list of recovery actions.
pub open spec fn action_views(s: Seq<FaultRecoveryAction>) -> Seq<(Seq<char>, Seq<char>, bool, bool)> {
    s.map_values(|a: FaultRecoveryAction| action_view(a))
}

/// The most severe status among fault statuses (the last of equal severity),
/// or healthy when there is none.
pub open spec fn overall_of(s: Seq<RuntimeHealthStatus>) -> RuntimeHealthStatus
    decreases s.len(),
{
    if s.len() == 0 {
        RuntimeHealthStatus::Healthy
    } else {
        let prev = overall_of(s.drop_last());
        if s.len() == 1 || s.last().rank() >= prev.rank() {
            s.last()
        } else {
            prev
        }
    }
}

/// The overall runtime health of a set of fault statuses: the most severe
/// one, or healthy when there is none.
pub fn overall_health(statuses: &[RuntimeHealthStatus]) -> (r: RuntimeHealthStatus)
    ensures
        r == overall_of(statuses@),
{
    let mut best = RuntimeHealthStatus::Healthy;
    let mut i: usize = 0;
    assert(statuses@.take(0) =~= Seq::<RuntimeHealthStatus>::empty());
    while i < statuses.len()
        invariant
            i <= statuses.len(),
            best == overall_of(statuses@.take(i as int)),
        decreases statuses.len() - i,
    {
        assert(statuses@.take(i + 1).drop_last() =~= statuses@.take(i as int));
        let s = statuses[i];
        if i == 0 || s.severity_rank() >= best.severity_rank() {
            best = s;
        }
        i = i + 1;
    }
    assert(statuses@.take(statuses.len() as int) =~= statuses@);
    best
}

/// The overall status is as severe as any fault's, and is one of them when
/// there is any.
pub proof fn law_overall_is_most_severe(s: Seq<RuntimeHealthStatus>)
    ensures
        forall|i: int| 0 <= i < s.len() ==> (#[trigger] s[i]).rank() <= overall_of(s).rank(),
        s.len() > 0 ==> s.contains(overall_of(s)),
        s.len() == 0 ==> overall_of(s) == RuntimeHealthStatus::Healthy,
    decreases s.len(),
{
    if s.len() > 0 {
        let t = s.drop_last();
        law_overall_is_most_severe(t);
        assert forall|i: int| 0 <= i < s.len() implies (#[trigger] s[i]).rank() <= overall_of(s).rank() by {
            if i < s.len() - 1 {
                assert(s[i] == t[i]);
            }
        }
        if s.len() > 1 && !(s.last().rank() >= overall_of(t).rank()) {
            let k = choose|k: int| 0 <= k < t.len() && t[k] == overall_of(t);
            assert(s[k] == t[k]);
        } else {
            assert(s[s.len() - 1] == s.last());
        }
    }
}

/// A fault scan passes when its overall health is less severe than critical.
pub fn scan_passed(statuses: &[RuntimeHealthStatus]) -> (r: bool)
    ensures
        r == (overall_of(statuses@).rank() < 4),
{
    let overall = overall_health(statuses);
    overall.severity_rank() < RuntimeHealthStatus::Critical.severity_rank()
}

/// The likely cause of a fault of this kind.
pub open spec fn spec_likely_cause(kind: RuntimeFaultKind) -> Seq<char> {
    match kind {
        RuntimeFaultKind::ProcessCrash => "Abnormal process exit or unhandled signal"@,
        RuntimeFaultKind::RuntimePanic => "Unhandled panic in runtime thread"@,
        RuntimeFaultKind::MemoryLeak => "Sustained memory growth exceeding configured threshold"@,
        RuntimeFaultKind::UnexpectedReboot | RuntimeFaultKind::OsReboot =>
            "Power loss, kernel panic, or watchdog-forced reboot"@,
        RuntimeFaultKind::WatchdogTimeout => "Task or pipeline exceeded watchdog timeout"@,
        RuntimeFaultKind::OutOfMemory => "Memory allocation failed — system OOM"@,
        RuntimeFaultKind::Deadlock | RuntimeFaultKind::TaskStarvation =>
            "Scheduler starvation or blocked queue"@,
        RuntimeFaultKind::RestartLoop => "Repeated crash/restart within policy window"@,
        RuntimeFaultKind::HeartbeatLoss => "Runtime heartbeat not received within timeout"@,
        RuntimeFaultKind::CpuOverload | RuntimeFaultKind::MemoryPressure
        | RuntimeFaultKind::DiskPressure => "Resource usage exceeded configured threshold"@,
        _ => "Runtime fault detected — see evidence for details"@,
    }
}

/// The likely cause of a fault of this kind.
pub fn likely_cause(kind: RuntimeFaultKind) -> (r: &'static str)
    ensures
        r@ == spec_likely_cause(kind),
{
    match kind {
        RuntimeFaultKind::ProcessCrash => "Abnormal process exit or unhandled signal",
        RuntimeFaultKind::RuntimePanic => "Unhandled panic in runtime thread",
        RuntimeFaultKind::MemoryLeak => "Sustained memory growth exceeding configured threshold",
        RuntimeFaultKind::UnexpectedReboot | RuntimeFaultKind::OsReboot =>
            "Power loss, kernel panic, or watchdog-forced reboot",
        RuntimeFaultKind::WatchdogTimeout => "Task or pipeline exceeded watchdog timeout",
        RuntimeFaultKind::OutOfMemory => "Memory allocation failed — system OOM",
        RuntimeFaultKind::Deadlock | RuntimeFaultKind::TaskStarvation =>
            "Scheduler starvation or blocked queue",
        RuntimeFaultKind::RestartLoop => "Repeated crash/restart within policy window",
        RuntimeFaultKind::HeartbeatLoss => "Runtime heartbeat not received within timeout",
        RuntimeFaultKind::CpuOverload | RuntimeFaultKind::MemoryPressure
        | RuntimeFaultKind::DiskPressure => "Resource usage exceeded configured threshold",
        _ => "Runtime fault detected — see evidence for details",
    }
}

/// What a diagnosis says happened: `<kind> on '<target>'`.
pub fn diagnosis_what(kind: RuntimeFaultKind, target: &str) -> (r: String)
    ensures
        r@ == kind.spec_as_str() + " on '"@ + target@ + "'"@,
{
    let mut r = concat3(kind.as_str(), " on '", target);
    r.append("'");
    r
}

/// Whether a recovery trigger's event (compared in lowercase) concerns a
/// fault of this kind.
pub open spec fn spec_event_matches(event: Seq<char>, kind: RuntimeFaultKind) -> bool {
    let e = unicode_lower(event);
    match kind {
        RuntimeFaultKind::ProcessCrash | RuntimeFaultKind::RuntimePanic => seq_contains(e, "crash"@),
        RuntimeFaultKind::MemoryLeak => seq_contains(e, "memory"@),
        RuntimeFaultKind::UnexpectedReboot | RuntimeFaultKind::OsReboot => seq_contains(e, "reboot"@),
        RuntimeFaultKind::RestartLoop => seq_contains(e, "restart"@),
        RuntimeFaultKind::WatchdogTimeout => seq_contains(e, "watchdog"@),
        RuntimeFaultKind::HeartbeatLoss => seq_contains(e, "heartbeat"@),
        _ => false,
    }
}

/// Whether a recovery trigger's event concerns a fault of this kind.
pub fn event_matches_fault(event: &str, kind: RuntimeFaultKind) -> (r: bool)
    ensures
        r == spec_event_matches(event@, kind),
{
    let e = to_lowercase(event);
    let el = e.as_str();
    match kind {
        RuntimeFaultKind::ProcessCrash | RuntimeFaultKind::RuntimePanic => str_contains(el, "crash"),
        RuntimeFaultKind::MemoryLeak => str_contains(el, "memory"),
        RuntimeFaultKind::UnexpectedReboot | RuntimeFaultKind::OsReboot => str_contains(el, "reboot"),
        RuntimeFaultKind::RestartLoop => str_contains(el, "restart"),
        RuntimeFaultKind::WatchdogTimeout => str_contains(el, "watchdog"),
        RuntimeFaultKind::HeartbeatLoss => str_contains(el, "heartbeat"),
        _ => false,
    }
}

/// The action, approval and safety validation of the built-in recovery for
/// a fault of this kind on a target.
pub open spec fn default_action(kind: RuntimeFaultKind, target: Seq<char>) -> (Seq<char>, bool) {
    match kind {
        RuntimeFaultKind::ProcessCrash | RuntimeFaultKind::ProviderCrash => ("restart "@ + target, false),
        RuntimeFaultKind::RestartLoop => ("enter SafeMode"@, true),
        RuntimeFaultKind::MemoryLeak => ("notify_operator"@, true),
        RuntimeFaultKind::ActuatorDriverCrash => ("trigger kill switch"@, false),
        _ => ("enter degraded_mode"@, false),
    }
}

/// The built-in recovery for a fault of this kind: one safety-validated
/// action on the target.
pub fn default_recovery_for_kind(kind: RuntimeFaultKind, target: &str) -> (r: Vec<FaultRecoveryAction>)
    ensures
        action_views(r@) == seq![
            (default_action(kind, target@).0, target@, default_action(kind, target@).1, true),
        ],
{
    let (action, approval) = match kind {
        RuntimeFaultKind::ProcessCrash | RuntimeFaultKind::ProviderCrash => (concat2("restart ", target), false),
        RuntimeFaultKind::RestartLoop => ("enter SafeMode".to_owned(), true),
        RuntimeFaultKind::MemoryLeak => ("notify_operator".to_owned(), true),
        RuntimeFaultKind::ActuatorDriverCrash => ("trigger kill switch".to_owned(), false),
        _ => ("enter degraded_mode".to_owned(), false),
    };
    let r = vec![
        FaultRecoveryAction {
            action,
            target: target.to_owned(),
            requires_approval: approval,
            safety_validated: true,
        },
    ];
    assert(action_views(r@) =~= seq![
        (default_action(kind, target@).0, target@, default_action(kind, target@).1, true),
    ]);
    r
}

/// A recovery trigger declared by a program: the event it answers and the
/// actions it runs.
#[derive(Debug, Clone)]
pub struct FaultTrigger {
    pub event: String,
    pub actions: Vec<String>,
}

/// The recovery actions a program's triggers give for a fault: every action
/// of every trigger whose event matches the fault, in order.
pub open spec fn trigger_actions(
    triggers: Seq<FaultTrigger>,
    kind: RuntimeFaultKind,
    target: Seq<char>,
    has_safety: bool,
) -> Seq<(Seq<char>, Seq<char>, bool, bool)>
    decreases triggers.len(),
{
    if triggers.len() == 0 {
        Seq::empty()
    } else {
        let prev = trigger_actions(triggers.drop_last(), kind, target, has_safety);
        let t = triggers.last();
        if spec_event_matches(t.event@, kind) {
            prev + t.actions@.map_values(
                |a: String|
                    (
                        a@,
                        target,
                        seq_contains(a@, "operator"@) || seq_contains(a@, "approval"@),
                        !seq_contains(a@, "kill_switch"@) || has_safety,
                    ),
            )
        } else {
            prev
        }
    }
}

fn trigger_action_list(
    actions: &Vec<String>,
    target: &str,
    has_safety: bool,
    out: &mut Vec<FaultRecoveryAction>,
)
    ensures
        action_views(final(out)@) == action_views(old(out)@) + actions@.map_values(
            |a: String|
                (
                    a@,
                    target@,
                    seq_contains(a@, "operator"@) || seq_contains(a@, "approval"@),
                    !seq_contains(a@, "kill_switch"@) || has_safety,
                ),
        ),
{
    let ghost f = |a: String|
        (
            a@,
            target@,
            seq_contains(a@, "operator"@) || seq_contains(a@, "approval"@),
            !seq_contains(a@, "kill_switch"@) || has_safety,
        );
    let mut i: usize = 0;
    while i < actions.len()
        invariant
            i <= actions.len(),
            f == (|a: String|
                (
                    a@,
                    target@,
                    seq_contains(a@, "operator"@) || seq_contains(a@, "approval"@),
                    !seq_contains(a@, "kill_switch"@) || has_safety,
                )),
            action_views(out@) == action_views(old(out)@) + actions@.take(i as int).map_values(f),
        decreases actions.len() - i,
    {
        let a = actions[i].as_str();
        let ghost before = out@;
        out.push(
            FaultRecoveryAction {
                action: a.to_owned(),
                target: target.to_owned(),
                requires_approval: str_contains(a, "operator") || str_contains(a, "approval"),
                safety_validated: !str_contains(a, "kill_switch") || has_safety,
            },
        );
        assert(actions@.take(i + 1).map_values(f) =~= actions@.take(i as int).map_values(f).push(
            f(actions@[i as int]),
        ));
        assert(action_views(out@) =~= action_views(before).push(f(actions@[i as int])));
        i = i + 1;
    }
    assert(actions@.take(actions.len() as int) =~= actions@);
}

/// Recovery actions for a fault: those of the program's matching triggers,
/// or the built-in recovery when no trigger matches.
pub fn recommend_recovery(
    triggers: &Vec<FaultTrigger>,
    has_safety: bool,
    kind: RuntimeFaultKind,
    target: &str,
) -> (r: Vec<FaultRecoveryAction>)
    ensures
        action_views(r@) == if trigger_actions(triggers@, kind, target@, has_safety).len() > 0 {
            trigger_actions(triggers@, kind, target@, has_safety)
        } else {
            seq![(default_action(kind, target@).0, target@, default_action(kind, target@).1, true)]
        },
{
    let mut out: Vec<FaultRecoveryAction> = Vec::new();
    let mut i: usize = 0;
    assert(triggers@.take(0) =~= Seq::<FaultTrigger>::empty());
    assert(action_views(out@) =~= Seq::empty());
    while i < triggers.len()
        invariant
            i <= triggers.len(),
            action_views(out@) == trigger_actions(triggers@.take(i as int), kind, target@, has_safety),
        decreases triggers.len() - i,
    {
        assert(triggers@.take(i + 1).drop_last() =~= triggers@.take(i as int));
        let t = &triggers[i];
        if event_matches_fault(t.event.as_str(), kind) {
            trigger_action_list(&t.actions, target, has_safety, &mut out);
        }
        i = i + 1;
    }
    assert(triggers@.take(triggers.len() as int) =~= triggers@);
    if out.len() == 0 {
        default_recovery_for_kind(kind, target)
    } else {
        out
    }
}

/// Every recommended recovery action targets the faulted entity.
pub proof fn law_recovery_targets_fault(
    triggers: Seq<FaultTrigger>,
    kind: RuntimeFaultKind,
    target: Seq<char>,
    has_safety: bool,
)
    ensures
        forall|i: int|
            0 <= i < trigger_actions(triggers, kind, target, has_safety).len() ==> (#[trigger] trigger_actions(
                triggers,
                kind,
                target,
                has_safety,
            )[i]).1 == target,
    decreases triggers.len(),
{
    if triggers.len() > 0 {
        law_recovery_targets_fault(triggers.drop_last(), kind, target, has_safety);
        let prev = trigger_actions(triggers.drop_last(), kind, target, has_safety);
        let all = trigger_actions(triggers, kind, target, has_safety);
        assert forall|i: int| 0 <= i < all.len() implies (#[trigger] all[i]).1 == target by {
            if i < prev.len() {
                assert(all[i] == prev[i]);
            }
        }
    }
}

/// The readiness severity and suggested action a fault of this status
/// brings.
pub open spec fn spec_readiness_impact(status: RuntimeHealthStatus) -> (ReadinessSeverity, Seq<char>) {
    match status {
        RuntimeHealthStatus::Crashed | RuntimeHealthStatus::Critical => (
            ReadinessSeverity::Critical,
            "Block deployment until fault is resolved"@,
        ),
        RuntimeHealthStatus::Rebooted => (ReadinessSeverity::High, "Run post-reboot diagnostics"@),
        RuntimeHealthStatus::Degraded => (
            ReadinessSeverity::Medium,
            "Review degraded runtime before mission start"@,
        ),
        RuntimeHealthStatus::Warning => (ReadinessSeverity::Low, "Monitor runtime health during mission"@),
        _ => (ReadinessSeverity::Info, "No action required"@),
    }
}

/// The readiness severity and suggested action a fault of this status brings.
pub fn fault_readiness_impact(status: RuntimeHealthStatus) -> (r: (ReadinessSeverity, String))
    ensures
        (r.0, r.1@) == spec_readiness_impact(status),
{
    match status {
        RuntimeHealthStatus::Crashed | RuntimeHealthStatus::Critical => (
            ReadinessSeverity::Critical,
            "Block deployment until fault is resolved".to_owned(),
        ),
        RuntimeHealthStatus::Rebooted => (ReadinessSeverity::High, "Run post-reboot diagnostics".to_owned()),
        RuntimeHealthStatus::Degraded => (
            ReadinessSeverity::Medium,
            "Review degraded runtime before mission start".to_owned(),
        ),
        RuntimeHealthStatus::Warning => (
            ReadinessSeverity::Low,
            "Monitor runtime health during mission".to_owned(),
        ),
        _ => (ReadinessSeverity::Info, "No action required".to_owned()),
    }
}

/// Readiness impact never decreases as runtime health worsens, up to a
/// crash (unknown status carries no impact).
pub proof fn law_impact_grows_with_severity(a: RuntimeHealthStatus, b: RuntimeHealthStatus)
    requires
        a.rank() <= b.rank(),
        !(b is Unknown),
    ensures
        spec_readiness_impact(a).0.rank() <= spec_readiness_impact(b).0.rank(),
{
}

/// The fault event names recorded in mission traces.
pub open spec fn fault_event_names() -> Seq<Seq<char>> {
    seq![
        "fault_crash"@,
        "fault_reboot"@,
        "fault_watchdog_timeout"@,
        "fault_memory_growth"@,
        "fault_restart_loop"@,
        "fault_resource_pressure"@,
        "fault_heartbeat_loss"@,
        "fault_deadlock"@,
        "fault_oom"@,
    ]
}

/// A trace event is a fault event when it starts with `fault_` or is one of
/// the recorded fault event names.
pub open spec fn spec_is_fault_event(event: Seq<char>) -> bool {
    seq_starts_with(event, "fault_"@) || fault_event_names().contains(event)
}

/// Whether a trace event is a fault event.
pub fn is_fault_event(event: &str) -> (r: bool)
    ensures
        r == spec_is_fault_event(event@),
{
    if str_starts_with(event, "fault_") {
        return true;
    }
    let names = vec![
        "fault_crash",
        "fault_reboot",
        "fault_watchdog_timeout",
        "fault_memory_growth",
        "fault_restart_loop",
        "fault_resource_pressure",
        "fault_heartbeat_loss",
        "fault_deadlock",
        "fault_oom",
    ];
    assert(names@.map_values(|s: &str| s@) =~= fault_event_names());
    let mut i: usize = 0;
    while i < names.len()
        invariant
            i <= names.len(),
            names@.map_values(|s: &str| s@) == fault_event_names(),
            forall|k: int| 0 <= k < i ==> fault_event_names()[k] != event@,
        decreases names.len() - i,
    {
        if str_eq(names[i], event) {
            assert(fault_event_names()[i as int] == event@);
            return true;
        }
        i = i + 1;
    }
    false
}

/// The trace event a fault of this kind is recorded as.
pub open spec fn spec_trace_event(kind: RuntimeFaultKind) -> Seq<char> {
    match kind {
        RuntimeFaultKind::ProcessCrash | RuntimeFaultKind::RuntimePanic
        | RuntimeFaultKind::ProviderCrash | RuntimeFaultKind::PackageCrash => "fault_crash"@,
        RuntimeFaultKind::UnexpectedReboot | RuntimeFaultKind::OsReboot => "fault_reboot"@,
        RuntimeFaultKind::WatchdogTimeout => "fault_watchdog_timeout"@,
        RuntimeFaultKind::MemoryLeak => "fault_memory_growth"@,
        RuntimeFaultKind::RestartLoop => "fault_restart_loop"@,
        RuntimeFaultKind::CpuOverload | RuntimeFaultKind::MemoryPressure
        | RuntimeFaultKind::DiskPressure => "fault_resource_pressure"@,
        RuntimeFaultKind::HeartbeatLoss => "fault_heartbeat_loss"@,
        RuntimeFaultKind::Deadlock | RuntimeFaultKind::TaskStarvation => "fault_deadlock"@,
        RuntimeFaultKind::OutOfMemory => "fault_oom"@,
        _ => "fault_event"@,
    }
}

/// The trace event a fault of this kind is recorded as.
pub fn fault_kind_to_trace_event(kind: RuntimeFaultKind) -> (r: &'static str)
    ensures
        r@ == spec_trace_event(kind),
{
    match kind {
        RuntimeFaultKind::ProcessCrash | RuntimeFaultKind::RuntimePanic
        | RuntimeFaultKind::ProviderCrash | RuntimeFaultKind::PackageCrash => "fault_crash",
        RuntimeFaultKind::UnexpectedReboot | RuntimeFaultKind::OsReboot => "fault_reboot",
        RuntimeFaultKind::WatchdogTimeout => "fault_watchdog_timeout",
        RuntimeFaultKind::MemoryLeak => "fault_memory_growth",
        RuntimeFaultKind::RestartLoop => "fault_restart_loop",
        RuntimeFaultKind::CpuOverload | RuntimeFaultKind::MemoryPressure
        | RuntimeFaultKind::DiskPressure => "fault_resource_pressure",
        RuntimeFaultKind::HeartbeatLoss => "fault_heartbeat_loss",
        RuntimeFaultKind::Deadlock | RuntimeFaultKind::TaskStarvation => "fault_deadlock",
        RuntimeFaultKind::OutOfMemory => "fault_oom",
        _ => "fault_event",
    }
}

/// The fault kind a recorded kind name reads back as.
pub open spec fn spec_kind_of_name(s: Seq<char>) -> RuntimeFaultKind {
    if s == "process_crash"@ || s == "runtime_panic"@ || s == "provider_crash"@ || s
        == "package_crash"@ {
        RuntimeFaultKind::ProcessCrash
    } else if s == "unexpected_reboot"@ || s == "os_reboot"@ {
        RuntimeFaultKind::UnexpectedReboot
    } else if s == "watchdog_timeout"@ {
        RuntimeFaultKind::WatchdogTimeout
    } else if s == "memory_leak"@ {
        RuntimeFaultKind::MemoryLeak
    } else if s == "restart_loop"@ {
        RuntimeFaultKind::RestartLoop
    } else if s == "heartbeat_loss"@ {
        RuntimeFaultKind::HeartbeatLoss
    } else if s == "out_of_memory"@ {
        RuntimeFaultKind::OutOfMemory
    } else if s == "deadlock"@ || s == "task_starvation"@ {
        RuntimeFaultKind::Deadlock
    } else {
        RuntimeFaultKind::AbnormalShutdown
    }
}

/// The fault kind a recorded kind name reads back as.
pub fn trace_event_to_kind(s: &str) -> (r: RuntimeFaultKind)
    ensures
        r == spec_kind_of_name(s@),
{
    if str_eq(s, "process_crash") || str_eq(s, "runtime_panic") || str_eq(s, "provider_crash")
        || str_eq(s, "package_crash") {
        RuntimeFaultKind::ProcessCrash
    } else if str_eq(s, "unexpected_reboot") || str_eq(s, "os_reboot") {
        RuntimeFaultKind::UnexpectedReboot
    } else if str_eq(s, "watchdog_timeout") {
        RuntimeFaultKind::WatchdogTimeout
    } else if str_eq(s, "memory_leak") {
        RuntimeFaultKind::MemoryLeak
    } else if str_eq(s, "restart_loop") {
        RuntimeFaultKind::RestartLoop
    } else if str_eq(s, "heartbeat_loss") {
        RuntimeFaultKind::HeartbeatLoss
    } else if str_eq(s, "out_of_memory") {
        RuntimeFaultKind::OutOfMemory
    } else if str_eq(s, "deadlock") || str_eq(s, "task_starvation") {
        RuntimeFaultKind::Deadlock
    } else {
        RuntimeFaultKind::AbnormalShutdown
    }
}

/// Every fault recorded in a trace is recognized as a fault event when the
/// trace is read back.
pub proof fn law_recorded_fault_is_fault_event(kind: RuntimeFaultKind)
    ensures
        spec_is_fault_event(spec_trace_event(kind)),
{
    reveal_strlit("fault_");
    reveal_strlit("fault_crash");
    reveal_strlit("fault_reboot");
    reveal_strlit("fault_watchdog_timeout");
    reveal_strlit("fault_memory_growth");
    reveal_strlit("fault_restart_loop");
    reveal_strlit("fault_resource_pressure");
    reveal_strlit("fault_heartbeat_loss");
    reveal_strlit("fault_deadlock");
    reveal_strlit("fault_oom");
    reveal_strlit("fault_event");
    let e = spec_trace_event(kind);
    assert(e.subrange(0, 6) =~= "fault_"@);
}

/// The marker a report shows for a status.
pub open spec fn spec_status_icon(status: RuntimeHealthStatus) -> Seq<char> {
    match status {
        RuntimeHealthStatus::Healthy => "OK"@,
        RuntimeHealthStatus::Warning => "WARN"@,
        RuntimeHealthStatus::Degraded => "DEG"@,
        RuntimeHealthStatus::Critical => "CRIT"@,
        RuntimeHealthStatus::Crashed => "CRASH"@,
        RuntimeHealthStatus::Rebooted => "BOOT"@,
        RuntimeHealthStatus::Unknown => "?"@,
    }
}

/// The marker a report shows for a status.
pub fn status_icon(status: RuntimeHealthStatus) -> (r: &'static str)
    ensures
        r@ == spec_status_icon(status),
{
    match status {
        RuntimeHealthStatus::Healthy => "OK",
        RuntimeHealthStatus::Warning => "WARN",
        RuntimeHealthStatus::Degraded => "DEG",
        RuntimeHealthStatus::Critical => "CRIT",
        RuntimeHealthStatus::Crashed => "CRASH",
        RuntimeHealthStatus::Rebooted => "BOOT",
        RuntimeHealthStatus::Unknown => "?",
    }
}

/// The HTML text of one character.
pub open spec fn escape_char(c: char) -> Seq<char> {
    if c == '&' {
        "&amp;"@
    } else if c == '<' {
        "&lt;"@
    } else if c == '>' {
        "&gt;"@
    } else if c == '"' {
        "&quot;"@
    } else {
        seq![c]
    }
}

/// A text with `&`, `<`, `>` and `"` replaced by their HTML entities.
pub open spec fn html_escaped(s: Seq<char>) -> Seq<char>
    decreases s.len(),
{
    if s.len() == 0 {
        Seq::empty()
    } else {
        html_escaped(s.drop_last()) + escape_char(s.last())
    }
}

/// Escape a text for HTML: `&`, `<`, `>` and `"` become entities.
pub fn html_escape(s: &str) -> (r: String)
    ensures
        r@ == html_escaped(s@),
{
    let cs = chars_of(s);
    let mut out = String::new();
    let mut i: usize = 0;
    assert(cs@.take(0) =~= Seq::<char>::empty());
    while i < cs.len()
        invariant
            i <= cs.len(),
            cs@ == s@,
            out@ == html_escaped(cs@.take(i as int)),
        decreases cs.len() - i,
    {
        assert(cs@.take(i + 1).drop_last() =~= cs@.take(i as int));
        let c = cs[i];
        if c == '&' {
            out.append("&amp;");
        } else if c == '<' {
            out.append("&lt;");
        } else if c == '>' {
            out.append("&gt;");
        } else if c == '"' {
            out.append("&quot;");
        } else {
            push_char(&mut out, c);
        }
        i = i + 1;
    }
    assert(cs@.take(cs.len() as int) =~= cs@);
    out
}

/// Escaped text holds no `<`, `>` or `"`: it cannot open a tag or close an
/// attribute.
pub proof fn law_escaped_has_no_markup(s: Seq<char>)
    ensures
        forall|i: int|
            0 <= i < html_escaped(s).len() ==> {
                let c = #[trigger] html_escaped(s)[i];
                c != '<' && c != '>' && c != '"'
            },
    decreases s.len(),
{
    reveal_strlit("&amp;");
    reveal_strlit("&lt;");
    reveal_strlit("&gt;");
    reveal_strlit("&quot;");
    if s.len() > 0 {
        law_escaped_has_no_markup(s.drop_last());
        let p = html_escaped(s.drop_last());
        let e = escape_char(s.last());
        assert forall|i: int| 0 <= i < html_escaped(s).len() implies {
            let c = #[trigger] html_escaped(s)[i];
            c != '<' && c != '>' && c != '"'
        } by {
            if i < p.len() {
                assert(html_escaped(s)[i] == p[i]);
            } else {
                assert(html_escaped(s)[i] == e[i - p.len()]);
            }
        }
    }
}

/// Only a crashed process or provider is restarted by the built-in
/// recovery; a crashed actuator driver instead triggers the kill switch on
/// its target, with no approval to wait for.
pub proof fn law_only_process_crashes_restart(kind: RuntimeFaultKind, target: Seq<char>)
    ensures
        seq_starts_with(default_action(kind, target).0, "restart "@) <==> (kind is ProcessCrash || kind is ProviderCrash),
        kind is ActuatorDriverCrash ==> default_action(kind, target) == ("trigger kill switch"@, false),
{
    reveal_strlit("restart ");
    reveal_strlit("enter SafeMode");
    reveal_strlit("notify_operator");
    reveal_strlit("trigger kill switch");
    reveal_strlit("enter degraded_mode");
    let a = default_action(kind, target).0;
    let p = "restart "@;
    assert(p.len() == 8 && p[0] == 'r');
    if kind is ProcessCrash || kind is ProviderCrash {
        assert(a == p + target);
        assert(a.subrange(0, 8) =~= p);
        assert(occurs_at(a, p, 0));
    } else {
        assert(a.len() > 0 && a[0] != 'r');
        if occurs_at(a, p, 0) {
            assert(a.subrange(0, 8)[0] == a[0]);
            assert(a.subrange(0, 8)[0] == p[0]);
        }
    }
}

} // verus!
