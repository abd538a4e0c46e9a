//! Recovery escalation levels and orchestrator strategies.
use vstd::prelude::*;
use crate::text::{ascii_lower, ascii_lower_vec, chars_eq, chars_of, string_of};

verus! {

/// Standardized recovery escalation levels (0–8).
#[derive(Debug, Clone, Copy, PartialEq, Eq, Structural, Hash, PartialOrd, Ord)]
pub enum RecoveryEscalationLevel {
    /// Level 0 — retry transient failures.
    Level0Retry,
    /// Level 1 — restart software component or service.
    Level1RestartComponent,
    /// Level 2 — restart package or provider.
    Level2RestartPackage,
    /// Level 3 — recover hardware or device.
    Level3RecoverDevice,
    /// Level 4 — recover robot or vehicle.
    Level4RecoverRobot,
    /// Level 5 — mission reassignment (delegate / takeover).
    Level5MissionReassign,
    /// Level 6 — fleet or swarm redistribution.
    Level6FleetRedistribute,
    /// Level 7 — human intervention required.
    Level7HumanIntervention,
    /// Level 8 — emergency shutdown.
    Level8EmergencyShutdown,
}

impl RecoveryEscalationLevel {
    /// The numeric level, 0 through 8.
    pub open spec fn rank(self) -> nat {
        match self {
            RecoveryEscalationLevel::Level0Retry => 0,
            RecoveryEscalationLevel::Level1RestartComponent => 1,
            RecoveryEscalationLevel::Level2RestartPackage => 2,
            RecoveryEscalationLevel::Level3RecoverDevice => 3,
            RecoveryEscalationLevel::Level4RecoverRobot => 4,
            RecoveryEscalationLevel::Level5MissionReassign => 5,
            RecoveryEscalationLevel::Level6FleetRedistribute => 6,
            RecoveryEscalationLevel::Level7HumanIntervention => 7,
            RecoveryEscalationLevel::Level8EmergencyShutdown => 8,
        }
    }

    /// The numeric level, 0 through 8.
    pub fn as_u8(&self) -> (n: u8)
        ensures
            n as nat == self.rank(),
    {
        match self {
            RecoveryEscalationLevel::Level0Retry => 0,
            RecoveryEscalationLevel::Level1RestartComponent => 1,
            RecoveryEscalationLevel::Level2RestartPackage => 2,
            RecoveryEscalationLevel::Level3RecoverDevice => 3,
            RecoveryEscalationLevel::Level4RecoverRobot => 4,
            RecoveryEscalationLevel::Level5MissionReassign => 5,
            RecoveryEscalationLevel::Level6FleetRedistribute => 6,
            RecoveryEscalationLevel::Level7HumanIntervention => 7,
            RecoveryEscalationLevel::Level8EmergencyShutdown => 8,
        }
    }

    pub open spec fn spec_label(self) -> Seq<char> {
        match self {
            RecoveryEscalationLevel::Level0Retry => "retry"@,
            RecoveryEscalationLevel::Level1RestartComponent => "restart_component"@,
            RecoveryEscalationLevel::Level2RestartPackage => "restart_package"@,
            RecoveryEscalationLevel::Level3RecoverDevice => "recover_device"@,
            RecoveryEscalationLevel::Level4RecoverRobot => "recover_robot"@,
            RecoveryEscalationLevel::Level5MissionReassign => "mission_reassign"@,
            RecoveryEscalationLevel::Level6FleetRedistribute => "fleet_redistribute"@,
            RecoveryEscalationLevel::Level7HumanIntervention => "human_intervention"@,
            RecoveryEscalationLevel::Level8EmergencyShutdown => "emergency_shutdown"@,
        }
    }

    /// Snake-case label of the level.
    pub fn label(&self) -> (r: &'static str)
        ensures
            r@ == self.spec_label(),
    {
        match self {
            RecoveryEscalationLevel::Level0Retry => "retry",
            RecoveryEscalationLevel::Level1RestartComponent => "restart_component",
            RecoveryEscalationLevel::Level2RestartPackage => "restart_package",
            RecoveryEscalationLevel::Level3RecoverDevice => "recover_device",
            RecoveryEscalationLevel::Level4RecoverRobot => "recover_robot",
            RecoveryEscalationLevel::Level5MissionReassign => "mission_reassign",
            RecoveryEscalationLevel::Level6FleetRedistribute => "fleet_redistribute",
            RecoveryEscalationLevel::Level7HumanIntervention => "human_intervention",
            RecoveryEscalationLevel::Level8EmergencyShutdown => "emergency_shutdown",
        }
    }

    pub open spec fn spec_debug_name(self) -> Seq<char> {
        match self {
            RecoveryEscalationLevel::Level0Retry => "Level0Retry"@,
            RecoveryEscalationLevel::Level1RestartComponent => "Level1RestartComponent"@,
            RecoveryEscalationLevel::Level2RestartPackage => "Level2RestartPackage"@,
            RecoveryEscalationLevel::Level3RecoverDevice => "Level3RecoverDevice"@,
            RecoveryEscalationLevel::Level4RecoverRobot => "Level4RecoverRobot"@,
            RecoveryEscalationLevel::Level5MissionReassign => "Level5MissionReassign"@,
            RecoveryEscalationLevel::Level6FleetRedistribute => "Level6FleetRedistribute"@,
            RecoveryEscalationLevel::Level7HumanIntervention => "Level7HumanIntervention"@,
            RecoveryEscalationLevel::Level8EmergencyShutdown => "Level8EmergencyShutdown"@,
        }
    }

    /// The variant name, as `{:?}` prints it.
    pub fn debug_name(&self) -> (r: &'static str)
        ensures
            r@ == self.spec_debug_name(),
    {
        match self {
            RecoveryEscalationLevel::Level0Retry => "Level0Retry",
            RecoveryEscalationLevel::Level1RestartComponent => "Level1RestartComponent",
            RecoveryEscalationLevel::Level2RestartPackage => "Level2RestartPackage",
            RecoveryEscalationLevel::Level3RecoverDevice => "Level3RecoverDevice",
            RecoveryEscalationLevel::Level4RecoverRobot => "Level4RecoverRobot",
            RecoveryEscalationLevel::Level5MissionReassign => "Level5MissionReassign",
            RecoveryEscalationLevel::Level6FleetRedistribute => "Level6FleetRedistribute",
            RecoveryEscalationLevel::Level7HumanIntervention => "Level7HumanIntervention",
            RecoveryEscalationLevel::Level8EmergencyShutdown => "Level8EmergencyShutdown",
        }
    }

    /// The level with numeric value `n`, if `n` is at most 8.
    pub fn from_u8(n: u8) -> (r: Option<RecoveryEscalationLevel>)
        ensures
            r is Some <==> n <= 8,
            r matches Some(l) ==> l.rank() == n as nat,
    {
        match n {
            0 => Some(RecoveryEscalationLevel::Level0Retry),
            1 => Some(RecoveryEscalationLevel::Level1RestartComponent),
            2 => Some(RecoveryEscalationLevel::Level2RestartPackage),
            3 => Some(RecoveryEscalationLevel::Level3RecoverDevice),
            4 => Some(RecoveryEscalationLevel::Level4RecoverRobot),
            5 => Some(RecoveryEscalationLevel::Level5MissionReassign),
            6 => Some(RecoveryEscalationLevel::Level6FleetRedistribute),
            7 => Some(RecoveryEscalationLevel::Level7HumanIntervention),
            8 => Some(RecoveryEscalationLevel::Level8EmergencyShutdown),
            _ => None,
        }
    }
}

/// Classification of a failure, as the failure classifier reports it.
#[derive(Debug, Clone, Copy, PartialEq, Eq, Structural, Hash)]
pub enum FailureClassification {
    SensorFailure,
    ActuatorFailure,
    ConnectivityFailure,
    ProviderFailure,
    PackageFailure,
    MissionFailure,
    HealthDegradation,
    FleetFailure,
    SwarmFailure,
    SafetyFailure,
    Unknown,
}

/// The strategy a recovery runs as in the legacy recovery engine.
#[derive(Debug, Clone, PartialEq, Eq)]
pub enum LegacyRecoveryStrategy {
    ConnectivityRestart,
    ProviderReconnect,
    PackageReload,
    DeviceReinitialize,
    RedundantHardwareSwitch,
    DegradedMode,
    MissionPause,
    FleetReassign,
    OperatorAlert,
    Custom(String),
}

/// Extensible orchestrator recovery strategy.
#[derive(Debug, Clone, PartialEq, Eq)]
pub enum OrchestratorStrategy {
    Retry,
    RestartComponent,
    RestartService,
    RestartPackage,
    RestartProvider,
    RestartDevice,
    RestartRobot,
    RestartFleet,
    RestartGateway,
    Reconnect,
    Reinitialize,
    ReloadConfiguration,
    Rollback,
    SwitchProvider,
    SwitchPackage,
    SwitchHardware,
    SwitchSensor,
    SwitchNetwork,
    SwitchGateway,
    SwitchFleet,
    TransferMission,
    DelegateMission,
    TakeoverMission,
    GracefulDegradation,
    SafeShutdown,
    EmergencyShutdown,
    HumanEscalation,
    Custom(String),
}

impl OrchestratorStrategy {
    pub open spec fn spec_label(&self) -> Seq<char> {
        match self {
            OrchestratorStrategy::Retry => "retry"@,
            OrchestratorStrategy::RestartComponent => "restart_component"@,
            OrchestratorStrategy::RestartService => "restart_service"@,
            OrchestratorStrategy::RestartPackage => "restart_package"@,
            OrchestratorStrategy::RestartProvider => "restart_provider"@,
            OrchestratorStrategy::RestartDevice => "restart_device"@,
            OrchestratorStrategy::RestartRobot => "restart_robot"@,
            OrchestratorStrategy::RestartFleet => "restart_fleet"@,
            OrchestratorStrategy::RestartGateway => "restart_gateway"@,
            OrchestratorStrategy::Reconnect => "reconnect"@,
            OrchestratorStrategy::Reinitialize => "reinitialize"@,
            OrchestratorStrategy::ReloadConfiguration => "reload_configuration"@,
            OrchestratorStrategy::Rollback => "rollback"@,
            OrchestratorStrategy::SwitchProvider => "switch_provider"@,
            OrchestratorStrategy::SwitchPackage => "switch_package"@,
            OrchestratorStrategy::SwitchHardware => "switch_hardware"@,
            OrchestratorStrategy::SwitchSensor => "switch_sensor"@,
            OrchestratorStrategy::SwitchNetwork => "switch_network"@,
            OrchestratorStrategy::SwitchGateway => "switch_gateway"@,
            OrchestratorStrategy::SwitchFleet => "switch_fleet"@,
            OrchestratorStrategy::TransferMission => "transfer_mission"@,
            OrchestratorStrategy::DelegateMission => "delegate_mission"@,
            OrchestratorStrategy::TakeoverMission => "takeover_mission"@,
            OrchestratorStrategy::GracefulDegradation => "graceful_degradation"@,
            OrchestratorStrategy::SafeShutdown => "safe_shutdown"@,
            OrchestratorStrategy::EmergencyShutdown => "emergency_shutdown"@,
            OrchestratorStrategy::HumanEscalation => "human_escalation"@,
            OrchestratorStrategy::Custom(s) => s@,
        }
    }

    /// The legacy recovery strategy this strategy runs as.
    pub fn to_legacy(&self) -> (r: LegacyRecoveryStrategy)
        ensures
            match *self {
                OrchestratorStrategy::Retry => r matches LegacyRecoveryStrategy::Custom(n) && n@ == "retry"@,
                OrchestratorStrategy::Reconnect | OrchestratorStrategy::RestartGateway
                | OrchestratorStrategy::SwitchNetwork | OrchestratorStrategy::SwitchGateway => r
                    == LegacyRecoveryStrategy::ConnectivityRestart,
                OrchestratorStrategy::RestartProvider | OrchestratorStrategy::SwitchProvider => r
                    == LegacyRecoveryStrategy::ProviderReconnect,
                OrchestratorStrategy::RestartPackage | OrchestratorStrategy::SwitchPackage
                | OrchestratorStrategy::ReloadConfiguration => r == LegacyRecoveryStrategy::PackageReload,
                OrchestratorStrategy::RestartDevice | OrchestratorStrategy::Reinitialize
                | OrchestratorStrategy::SwitchSensor => r == LegacyRecoveryStrategy::DeviceReinitialize,
                OrchestratorStrategy::SwitchHardware => r == LegacyRecoveryStrategy::RedundantHardwareSwitch,
                OrchestratorStrategy::GracefulDegradation | OrchestratorStrategy::SafeShutdown
                | OrchestratorStrategy::EmergencyShutdown => r == LegacyRecoveryStrategy::DegradedMode,
                OrchestratorStrategy::TransferMission | OrchestratorStrategy::DelegateMission
                | OrchestratorStrategy::TakeoverMission => r == LegacyRecoveryStrategy::MissionPause,
                OrchestratorStrategy::RestartFleet | OrchestratorStrategy::SwitchFleet => r
                    == LegacyRecoveryStrategy::FleetReassign,
                OrchestratorStrategy::HumanEscalation => r == LegacyRecoveryStrategy::OperatorAlert,
                OrchestratorStrategy::RestartComponent | OrchestratorStrategy::RestartService
                | OrchestratorStrategy::RestartRobot => r matches LegacyRecoveryStrategy::Custom(n) && n@
                    == self.spec_label(),
                OrchestratorStrategy::Rollback => r matches LegacyRecoveryStrategy::Custom(n) && n@ == "rollback"@,
                OrchestratorStrategy::Custom(s) => r matches LegacyRecoveryStrategy::Custom(n) && n@ == s@,
            },
    {
        match self {
            OrchestratorStrategy::Retry => LegacyRecoveryStrategy::Custom("retry".to_owned()),
            OrchestratorStrategy::Reconnect | OrchestratorStrategy::RestartGateway | OrchestratorStrategy::SwitchNetwork
            | OrchestratorStrategy::SwitchGateway => LegacyRecoveryStrategy::ConnectivityRestart,
            OrchestratorStrategy::RestartProvider | OrchestratorStrategy::SwitchProvider => LegacyRecoveryStrategy::ProviderReconnect,
            OrchestratorStrategy::RestartPackage | OrchestratorStrategy::SwitchPackage
            | OrchestratorStrategy::ReloadConfiguration => LegacyRecoveryStrategy::PackageReload,
            OrchestratorStrategy::RestartDevice | OrchestratorStrategy::Reinitialize | OrchestratorStrategy::SwitchSensor => {
                LegacyRecoveryStrategy::DeviceReinitialize
            },
            OrchestratorStrategy::SwitchHardware => LegacyRecoveryStrategy::RedundantHardwareSwitch,
            OrchestratorStrategy::GracefulDegradation => LegacyRecoveryStrategy::DegradedMode,
            OrchestratorStrategy::TransferMission | OrchestratorStrategy::DelegateMission
            | OrchestratorStrategy::TakeoverMission => LegacyRecoveryStrategy::MissionPause,
            OrchestratorStrategy::RestartFleet | OrchestratorStrategy::SwitchFleet => LegacyRecoveryStrategy::FleetReassign,
            OrchestratorStrategy::HumanEscalation => LegacyRecoveryStrategy::OperatorAlert,
            OrchestratorStrategy::SafeShutdown | OrchestratorStrategy::EmergencyShutdown => LegacyRecoveryStrategy::DegradedMode,
            OrchestratorStrategy::RestartComponent | OrchestratorStrategy::RestartService
            | OrchestratorStrategy::RestartRobot => LegacyRecoveryStrategy::Custom(self.label().to_owned()),
            OrchestratorStrategy::Rollback => LegacyRecoveryStrategy::Custom("rollback".to_owned()),
            OrchestratorStrategy::Custom(s) => LegacyRecoveryStrategy::Custom(s.clone()),
        }
    }

    /// Snake-case label of the strategy; a custom strategy's own name.
    pub fn label(&self) -> (r: &str)
        ensures
            r@ == self.spec_label(),
    {
        match self {
            OrchestratorStrategy::Retry => "retry",
            OrchestratorStrategy::RestartComponent => "restart_component",
            OrchestratorStrategy::RestartService => "restart_service",
            OrchestratorStrategy::RestartPackage => "restart_package",
            OrchestratorStrategy::RestartProvider => "restart_provider",
            OrchestratorStrategy::RestartDevice => "restart_device",
            OrchestratorStrategy::RestartRobot => "restart_robot",
            OrchestratorStrategy::RestartFleet => "restart_fleet",
            OrchestratorStrategy::RestartGateway => "restart_gateway",
            OrchestratorStrategy::Reconnect => "reconnect",
            OrchestratorStrategy::Reinitialize => "reinitialize",
            OrchestratorStrategy::ReloadConfiguration => "reload_configuration",
            OrchestratorStrategy::Rollback => "rollback",
            OrchestratorStrategy::SwitchProvider => "switch_provider",
            OrchestratorStrategy::SwitchPackage => "switch_package",
            OrchestratorStrategy::SwitchHardware => "switch_hardware",
            OrchestratorStrategy::SwitchSensor => "switch_sensor",
            OrchestratorStrategy::SwitchNetwork => "switch_network",
            OrchestratorStrategy::SwitchGateway => "switch_gateway",
            OrchestratorStrategy::SwitchFleet => "switch_fleet",
            OrchestratorStrategy::TransferMission => "transfer_mission",
            OrchestratorStrategy::DelegateMission => "delegate_mission",
            OrchestratorStrategy::TakeoverMission => "takeover_mission",
            OrchestratorStrategy::GracefulDegradation => "graceful_degradation",
            OrchestratorStrategy::SafeShutdown => "safe_shutdown",
            OrchestratorStrategy::EmergencyShutdown => "emergency_shutdown",
            OrchestratorStrategy::HumanEscalation => "human_escalation",
            OrchestratorStrategy::Custom(s) => s.as_str(),
        }
    }

    /// The escalation level a strategy operates at by default.
    pub open spec fn spec_default_level(&self) -> RecoveryEscalationLevel {
        match self {
            OrchestratorStrategy::Retry => RecoveryEscalationLevel::Level0Retry,
            OrchestratorStrategy::RestartComponent => RecoveryEscalationLevel::Level1RestartComponent,
            OrchestratorStrategy::RestartService => RecoveryEscalationLevel::Level1RestartComponent,
            OrchestratorStrategy::RestartPackage => RecoveryEscalationLevel::Level2RestartPackage,
            OrchestratorStrategy::RestartProvider => RecoveryEscalationLevel::Level2RestartPackage,
            OrchestratorStrategy::RestartDevice => RecoveryEscalationLevel::Level3RecoverDevice,
            OrchestratorStrategy::RestartRobot => RecoveryEscalationLevel::Level4RecoverRobot,
            OrchestratorStrategy::RestartFleet => RecoveryEscalationLevel::Level6FleetRedistribute,
            OrchestratorStrategy::RestartGateway => RecoveryEscalationLevel::Level3RecoverDevice,
            OrchestratorStrategy::Reconnect => RecoveryEscalationLevel::Level3RecoverDevice,
            OrchestratorStrategy::Reinitialize => RecoveryEscalationLevel::Level3RecoverDevice,
            OrchestratorStrategy::ReloadConfiguration => RecoveryEscalationLevel::Level2RestartPackage,
            OrchestratorStrategy::Rollback => RecoveryEscalationLevel::Level2RestartPackage,
            OrchestratorStrategy::SwitchProvider => RecoveryEscalationLevel::Level2RestartPackage,
            OrchestratorStrategy::SwitchPackage => RecoveryEscalationLevel::Level2RestartPackage,
            OrchestratorStrategy::SwitchHardware => RecoveryEscalationLevel::Level3RecoverDevice,
            OrchestratorStrategy::SwitchSensor => RecoveryEscalationLevel::Level3RecoverDevice,
            OrchestratorStrategy::SwitchNetwork => RecoveryEscalationLevel::Level3RecoverDevice,
            OrchestratorStrategy::SwitchGateway => RecoveryEscalationLevel::Level3RecoverDevice,
            OrchestratorStrategy::SwitchFleet => RecoveryEscalationLevel::Level6FleetRedistribute,
            OrchestratorStrategy::TransferMission => RecoveryEscalationLevel::Level5MissionReassign,
            OrchestratorStrategy::DelegateMission => RecoveryEscalationLevel::Level5MissionReassign,
            OrchestratorStrategy::TakeoverMission => RecoveryEscalationLevel::Level5MissionReassign,
            OrchestratorStrategy::GracefulDegradation => RecoveryEscalationLevel::Level1RestartComponent,
            OrchestratorStrategy::SafeShutdown => RecoveryEscalationLevel::Level8EmergencyShutdown,
            OrchestratorStrategy::EmergencyShutdown => RecoveryEscalationLevel::Level8EmergencyShutdown,
            OrchestratorStrategy::HumanEscalation => RecoveryEscalationLevel::Level7HumanIntervention,
            OrchestratorStrategy::Custom(_) => RecoveryEscalationLevel::Level1RestartComponent,
        }
    }

    /// The escalation level a strategy operates at by default.
    pub fn default_escalation_level(&self) -> (r: RecoveryEscalationLevel)
        ensures
            r == self.spec_default_level(),
    {
        match self {
            OrchestratorStrategy::Retry => RecoveryEscalationLevel::Level0Retry,
            OrchestratorStrategy::RestartComponent => RecoveryEscalationLevel::Level1RestartComponent,
            OrchestratorStrategy::RestartService => RecoveryEscalationLevel::Level1RestartComponent,
            OrchestratorStrategy::RestartPackage => RecoveryEscalationLevel::Level2RestartPackage,
            OrchestratorStrategy::RestartProvider => RecoveryEscalationLevel::Level2RestartPackage,
            OrchestratorStrategy::RestartDevice => RecoveryEscalationLevel::Level3RecoverDevice,
            OrchestratorStrategy::RestartRobot => RecoveryEscalationLevel::Level4RecoverRobot,
            OrchestratorStrategy::RestartFleet => RecoveryEscalationLevel::Level6FleetRedistribute,
            OrchestratorStrategy::RestartGateway => RecoveryEscalationLevel::Level3RecoverDevice,
            OrchestratorStrategy::Reconnect => RecoveryEscalationLevel::Level3RecoverDevice,
            OrchestratorStrategy::Reinitialize => RecoveryEscalationLevel::Level3RecoverDevice,
            OrchestratorStrategy::ReloadConfiguration => RecoveryEscalationLevel::Level2RestartPackage,
            OrchestratorStrategy::Rollback => RecoveryEscalationLevel::Level2RestartPackage,
            OrchestratorStrategy::SwitchProvider => RecoveryEscalationLevel::Level2RestartPackage,
            OrchestratorStrategy::SwitchPackage => RecoveryEscalationLevel::Level2RestartPackage,
            OrchestratorStrategy::SwitchHardware => RecoveryEscalationLevel::Level3RecoverDevice,
            OrchestratorStrategy::SwitchSensor => RecoveryEscalationLevel::Level3RecoverDevice,
            OrchestratorStrategy::SwitchNetwork => RecoveryEscalationLevel::Level3RecoverDevice,
            OrchestratorStrategy::SwitchGateway => RecoveryEscalationLevel::Level3RecoverDevice,
            OrchestratorStrategy::SwitchFleet => RecoveryEscalationLevel::Level6FleetRedistribute,
            OrchestratorStrategy::TransferMission => RecoveryEscalationLevel::Level5MissionReassign,
            OrchestratorStrategy::DelegateMission => RecoveryEscalationLevel::Level5MissionReassign,
            OrchestratorStrategy::TakeoverMission => RecoveryEscalationLevel::Level5MissionReassign,
            OrchestratorStrategy::GracefulDegradation => RecoveryEscalationLevel::Level1RestartComponent,
            OrchestratorStrategy::SafeShutdown => RecoveryEscalationLevel::Level8EmergencyShutdown,
            OrchestratorStrategy::EmergencyShutdown => RecoveryEscalationLevel::Level8EmergencyShutdown,
            OrchestratorStrategy::HumanEscalation => RecoveryEscalationLevel::Level7HumanIntervention,
            OrchestratorStrategy::Custom(_) => RecoveryEscalationLevel::Level1RestartComponent,
        }
    }

    /// A copy of the strategy.
    pub fn duplicate(&self) -> (r: OrchestratorStrategy)
        ensures
            r == *self,
    {
        match self {
            OrchestratorStrategy::Retry => OrchestratorStrategy::Retry,
            OrchestratorStrategy::RestartComponent => OrchestratorStrategy::RestartComponent,
            OrchestratorStrategy::RestartService => OrchestratorStrategy::RestartService,
            OrchestratorStrategy::RestartPackage => OrchestratorStrategy::RestartPackage,
            OrchestratorStrategy::RestartProvider => OrchestratorStrategy::RestartProvider,
            OrchestratorStrategy::RestartDevice => OrchestratorStrategy::RestartDevice,
            OrchestratorStrategy::RestartRobot => OrchestratorStrategy::RestartRobot,
            OrchestratorStrategy::RestartFleet => OrchestratorStrategy::RestartFleet,
            OrchestratorStrategy::RestartGateway => OrchestratorStrategy::RestartGateway,
            OrchestratorStrategy::Reconnect => OrchestratorStrategy::Reconnect,
            OrchestratorStrategy::Reinitialize => OrchestratorStrategy::Reinitialize,
            OrchestratorStrategy::ReloadConfiguration => OrchestratorStrategy::ReloadConfiguration,
            OrchestratorStrategy::Rollback => OrchestratorStrategy::Rollback,
            OrchestratorStrategy::SwitchProvider => OrchestratorStrategy::SwitchProvider,
            OrchestratorStrategy::SwitchPackage => OrchestratorStrategy::SwitchPackage,
            OrchestratorStrategy::SwitchHardware => OrchestratorStrategy::SwitchHardware,
            OrchestratorStrategy::SwitchSensor => OrchestratorStrategy::SwitchSensor,
            OrchestratorStrategy::SwitchNetwork => OrchestratorStrategy::SwitchNetwork,
            OrchestratorStrategy::SwitchGateway => OrchestratorStrategy::SwitchGateway,
            OrchestratorStrategy::SwitchFleet => OrchestratorStrategy::SwitchFleet,
            OrchestratorStrategy::TransferMission => OrchestratorStrategy::TransferMission,
            OrchestratorStrategy::DelegateMission => OrchestratorStrategy::DelegateMission,
            OrchestratorStrategy::TakeoverMission => OrchestratorStrategy::TakeoverMission,
            OrchestratorStrategy::GracefulDegradation => OrchestratorStrategy::GracefulDegradation,
            OrchestratorStrategy::SafeShutdown => OrchestratorStrategy::SafeShutdown,
            OrchestratorStrategy::EmergencyShutdown => OrchestratorStrategy::EmergencyShutdown,
            OrchestratorStrategy::HumanEscalation => OrchestratorStrategy::HumanEscalation,
            OrchestratorStrategy::Custom(s) => OrchestratorStrategy::Custom(s.clone()),
        }
    }

    /// Whether this is one of the built-in strategies.
    pub open spec fn is_builtin(&self) -> bool {
        !(self is Custom)
    }
}

/// Every built-in (non-custom) strategy, in declaration order.
pub open spec fn builtin_strategies() -> Seq<OrchestratorStrategy> {
    seq![
        OrchestratorStrategy::Retry,
        OrchestratorStrategy::RestartComponent,
        OrchestratorStrategy::RestartService,
        OrchestratorStrategy::RestartPackage,
        OrchestratorStrategy::RestartProvider,
        OrchestratorStrategy::RestartDevice,
        OrchestratorStrategy::RestartRobot,
        OrchestratorStrategy::RestartFleet,
        OrchestratorStrategy::RestartGateway,
        OrchestratorStrategy::Reconnect,
        OrchestratorStrategy::Reinitialize,
        OrchestratorStrategy::ReloadConfiguration,
        OrchestratorStrategy::Rollback,
        OrchestratorStrategy::SwitchProvider,
        OrchestratorStrategy::SwitchPackage,
        OrchestratorStrategy::SwitchHardware,
        OrchestratorStrategy::SwitchSensor,
        OrchestratorStrategy::SwitchNetwork,
        OrchestratorStrategy::SwitchGateway,
        OrchestratorStrategy::SwitchFleet,
        OrchestratorStrategy::TransferMission,
        OrchestratorStrategy::DelegateMission,
        OrchestratorStrategy::TakeoverMission,
        OrchestratorStrategy::GracefulDegradation,
        OrchestratorStrategy::SafeShutdown,
        OrchestratorStrategy::EmergencyShutdown,
        OrchestratorStrategy::HumanEscalation,
    ]
}

/// Every built-in (non-custom) strategy, in declaration order.
pub fn builtin_strategy_list() -> (r: Vec<OrchestratorStrategy>)
    ensures
        r@ == builtin_strategies(),
{
    let r = vec![
        OrchestratorStrategy::Retry,
        OrchestratorStrategy::RestartComponent,
        OrchestratorStrategy::RestartService,
        OrchestratorStrategy::RestartPackage,
        OrchestratorStrategy::RestartProvider,
        OrchestratorStrategy::RestartDevice,
        OrchestratorStrategy::RestartRobot,
        OrchestratorStrategy::RestartFleet,
        OrchestratorStrategy::RestartGateway,
        OrchestratorStrategy::Reconnect,
        OrchestratorStrategy::Reinitialize,
        OrchestratorStrategy::ReloadConfiguration,
        OrchestratorStrategy::Rollback,
        OrchestratorStrategy::SwitchProvider,
        OrchestratorStrategy::SwitchPackage,
        OrchestratorStrategy::SwitchHardware,
        OrchestratorStrategy::SwitchSensor,
        OrchestratorStrategy::SwitchNetwork,
        OrchestratorStrategy::SwitchGateway,
        OrchestratorStrategy::SwitchFleet,
        OrchestratorStrategy::TransferMission,
        OrchestratorStrategy::DelegateMission,
        OrchestratorStrategy::TakeoverMission,
        OrchestratorStrategy::GracefulDegradation,
        OrchestratorStrategy::SafeShutdown,
        OrchestratorStrategy::EmergencyShutdown,
        OrchestratorStrategy::HumanEscalation,
    ];
    assert(r@ =~= builtin_strategies());
    r
}

proof fn lemma_builtin_listed(b: OrchestratorStrategy)
    requires
        b.is_builtin(),
    ensures
        exists|k: int| 0 <= k < builtin_strategies().len() && builtin_strategies()[k] == b,
{
    let all = builtin_strategies();
    match b {
        OrchestratorStrategy::Retry => { assert(all[0] == b); }
        OrchestratorStrategy::RestartComponent => { assert(all[1] == b); }
        OrchestratorStrategy::RestartService => { assert(all[2] == b); }
        OrchestratorStrategy::RestartPackage => { assert(all[3] == b); }
        OrchestratorStrategy::RestartProvider => { assert(all[4] == b); }
        OrchestratorStrategy::RestartDevice => { assert(all[5] == b); }
        OrchestratorStrategy::RestartRobot => { assert(all[6] == b); }
        OrchestratorStrategy::RestartFleet => { assert(all[7] == b); }
        OrchestratorStrategy::RestartGateway => { assert(all[8] == b); }
        OrchestratorStrategy::Reconnect => { assert(all[9] == b); }
        OrchestratorStrategy::Reinitialize => { assert(all[10] == b); }
        OrchestratorStrategy::ReloadConfiguration => { assert(all[11] == b); }
        OrchestratorStrategy::Rollback => { assert(all[12] == b); }
        OrchestratorStrategy::SwitchProvider => { assert(all[13] == b); }
        OrchestratorStrategy::SwitchPackage => { assert(all[14] == b); }
        OrchestratorStrategy::SwitchHardware => { assert(all[15] == b); }
        OrchestratorStrategy::SwitchSensor => { assert(all[16] == b); }
        OrchestratorStrategy::SwitchNetwork => { assert(all[17] == b); }
        OrchestratorStrategy::SwitchGateway => { assert(all[18] == b); }
        OrchestratorStrategy::SwitchFleet => { assert(all[19] == b); }
        OrchestratorStrategy::TransferMission => { assert(all[20] == b); }
        OrchestratorStrategy::DelegateMission => { assert(all[21] == b); }
        OrchestratorStrategy::TakeoverMission => { assert(all[22] == b); }
        OrchestratorStrategy::GracefulDegradation => { assert(all[23] == b); }
        OrchestratorStrategy::SafeShutdown => { assert(all[24] == b); }
        OrchestratorStrategy::EmergencyShutdown => { assert(all[25] == b); }
        OrchestratorStrategy::HumanEscalation => { assert(all[26] == b); }
        OrchestratorStrategy::Custom(_) => {}
    }
}

/// What `parse_strategy` yields for `text`: the built-in strategy whose label
/// is the ASCII-lowercased text, or a custom strategy named by that text.
pub open spec fn parses_to(text: Seq<char>, r: OrchestratorStrategy) -> bool {
    let l = ascii_lower(text);
    &&& r.spec_label() == l
    &&& (r is Custom ==> forall|b: OrchestratorStrategy| b.is_builtin() ==> b.spec_label() != l)
}

/// Parse a strategy name from TOML or CLI input (case-insensitive for ASCII).
pub fn parse_strategy(s: &str) -> (r: OrchestratorStrategy)
    ensures
        parses_to(s@, r),
{
    let raw = chars_of(s);
    let lower = ascii_lower_vec(&raw);
    let all = builtin_strategy_list();
    let mut i: usize = 0;
    while i < all.len()
        invariant
            all@ == builtin_strategies(),
            lower@ == ascii_lower(s@),
            i <= all.len(),
            forall|k: int| 0 <= k < i ==> (#[trigger] all@[k]).spec_label() != lower@,
        decreases all.len() - i,
    {
        let name = chars_of(all[i].label());
        if chars_eq(&name, &lower) {
            return all[i].duplicate();
        }
        i = i + 1;
    }
    proof {
        assert forall|b: OrchestratorStrategy| b.is_builtin() implies b.spec_label() != lower@ by {
            lemma_builtin_listed(b);
            let k = choose|k: int| 0 <= k < builtin_strategies().len() && builtin_strategies()[k] == b;
            assert(all@[k] == b);
        }
    }
    OrchestratorStrategy::Custom(string_of(&lower))
}

/// Parse strategy name from TOML or CLI input.
pub fn parse_strategy_for_playbook(s: &str) -> (r: OrchestratorStrategy)
    ensures
        parses_to(s@, r),
{
    parse_strategy(s)
}

proof fn lemma_reveal_strategy_labels()
    ensures
        "retry"@ =~= seq!['r', 'e', 't', 'r', 'y'],
        "restart_component"@ =~= seq!['r', 'e', 's', 't', 'a', 'r', 't', '_', 'c', 'o', 'm', 'p', 'o', 'n', 'e', 'n', 't'],
        "restart_service"@ =~= seq!['r', 'e', 's', 't', 'a', 'r', 't', '_', 's', 'e', 'r', 'v', 'i', 'c', 'e'],
        "restart_package"@ =~= seq!['r', 'e', 's', 't', 'a', 'r', 't', '_', 'p', 'a', 'c', 'k', 'a', 'g', 'e'],
        "restart_provider"@ =~= seq!['r', 'e', 's', 't', 'a', 'r', 't', '_', 'p', 'r', 'o', 'v', 'i', 'd', 'e', 'r'],
        "restart_device"@ =~= seq!['r', 'e', 's', 't', 'a', 'r', 't', '_', 'd', 'e', 'v', 'i', 'c', 'e'],
        "restart_robot"@ =~= seq!['r', 'e', 's', 't', 'a', 'r', 't', '_', 'r', 'o', 'b', 'o', 't'],
        "restart_fleet"@ =~= seq!['r', 'e', 's', 't', 'a', 'r', 't', '_', 'f', 'l', 'e', 'e', 't'],
        "restart_gateway"@ =~= seq!['r', 'e', 's', 't', 'a', 'r', 't', '_', 'g', 'a', 't', 'e', 'w', 'a', 'y'],
        "reconnect"@ =~= seq!['r', 'e', 'c', 'o', 'n', 'n', 'e', 'c', 't'],
        "reinitialize"@ =~= seq!['r', 'e', 'i', 'n', 'i', 't', 'i', 'a', 'l', 'i', 'z', 'e'],
        "reload_configuration"@ =~= seq!['r', 'e', 'l', 'o', 'a', 'd', '_', 'c', 'o', 'n', 'f', 'i', 'g', 'u', 'r', 'a', 't', 'i', 'o', 'n'],
        "rollback"@ =~= seq!['r', 'o', 'l', 'l', 'b', 'a', 'c', 'k'],
        "switch_provider"@ =~= seq!['s', 'w', 'i', 't', 'c', 'h', '_', 'p', 'r', 'o', 'v', 'i', 'd', 'e', 'r'],
        "switch_package"@ =~= seq!['s', 'w', 'i', 't', 'c', 'h', '_', 'p', 'a', 'c', 'k', 'a', 'g', 'e'],
        "switch_hardware"@ =~= seq!['s', 'w', 'i', 't', 'c', 'h', '_', 'h', 'a', 'r', 'd', 'w', 'a', 'r', 'e'],
        "switch_sensor"@ =~= seq!['s', 'w', 'i', 't', 'c', 'h', '_', 's', 'e', 'n', 's', 'o', 'r'],
        "switch_network"@ =~= seq!['s', 'w', 'i', 't', 'c', 'h', '_', 'n', 'e', 't', 'w', 'o', 'r', 'k'],
        "switch_gateway"@ =~= seq!['s', 'w', 'i', 't', 'c', 'h', '_', 'g', 'a', 't', 'e', 'w', 'a', 'y'],
        "switch_fleet"@ =~= seq!['s', 'w', 'i', 't', 'c', 'h', '_', 'f', 'l', 'e', 'e', 't'],
        "transfer_mission"@ =~= seq!['t', 'r', 'a', 'n', 's', 'f', 'e', 'r', '_', 'm', 'i', 's', 's', 'i', 'o', 'n'],
        "delegate_mission"@ =~= seq!['d', 'e', 'l', 'e', 'g', 'a', 't', 'e', '_', 'm', 'i', 's', 's', 'i', 'o', 'n'],
        "takeover_mission"@ =~= seq!['t', 'a', 'k', 'e', 'o', 'v', 'e', 'r', '_', 'm', 'i', 's', 's', 'i', 'o', 'n'],
        "graceful_degradation"@ =~= seq!['g', 'r', 'a', 'c', 'e', 'f', 'u', 'l', '_', 'd', 'e', 'g', 'r', 'a', 'd', 'a', 't', 'i', 'o', 'n'],
        "safe_shutdown"@ =~= seq!['s', 'a', 'f', 'e', '_', 's', 'h', 'u', 't', 'd', 'o', 'w', 'n'],
        "emergency_shutdown"@ =~= seq!['e', 'm', 'e', 'r', 'g', 'e', 'n', 'c', 'y', '_', 's', 'h', 'u', 't', 'd', 'o', 'w', 'n'],
        "human_escalation"@ =~= seq!['h', 'u', 'm', 'a', 'n', '_', 'e', 's', 'c', 'a', 'l', 'a', 't', 'i', 'o', 'n'],
{
    reveal_strlit("retry");
    reveal_strlit("restart_component");
    reveal_strlit("restart_service");
    reveal_strlit("restart_package");
    reveal_strlit("restart_provider");
    reveal_strlit("restart_device");
    reveal_strlit("restart_robot");
    reveal_strlit("restart_fleet");
    reveal_strlit("restart_gateway");
    reveal_strlit("reconnect");
    reveal_strlit("reinitialize");
    reveal_strlit("reload_configuration");
    reveal_strlit("rollback");
    reveal_strlit("switch_provider");
    reveal_strlit("switch_package");
    reveal_strlit("switch_hardware");
    reveal_strlit("switch_sensor");
    reveal_strlit("switch_network");
    reveal_strlit("switch_gateway");
    reveal_strlit("switch_fleet");
    reveal_strlit("transfer_mission");
    reveal_strlit("delegate_mission");
    reveal_strlit("takeover_mission");
    reveal_strlit("graceful_degradation");
    reveal_strlit("safe_shutdown");
    reveal_strlit("emergency_shutdown");
    reveal_strlit("human_escalation");
}

proof fn lemma_strategy_label_lowercase(b: OrchestratorStrategy)
    requires
        b.is_builtin(),
    ensures
        ascii_lower(b.spec_label()) == b.spec_label(),
{
    lemma_reveal_strategy_labels();
    assert(ascii_lower(b.spec_label()) =~= b.spec_label());
}

/// No two built-in strategies share a label.
#[verifier::rlimit(50)]
pub proof fn law_strategy_labels_distinct(a: OrchestratorStrategy, b: OrchestratorStrategy)
    requires
        a.is_builtin(),
        b.is_builtin(),
    ensures
        a.spec_label() == b.spec_label() ==> a == b,
{
    lemma_reveal_strategy_labels();
}

/// Parsing a built-in strategy's label gives that strategy back.
pub proof fn law_parse_label_roundtrip(b: OrchestratorStrategy, r: OrchestratorStrategy)
    requires
        b.is_builtin(),
        parses_to(b.spec_label(), r),
    ensures
        r == b,
{
    lemma_strategy_label_lowercase(b);
    if r is Custom {
        assert(b.spec_label() != ascii_lower(b.spec_label()));
    } else {
        law_strategy_labels_distinct(r, b);
    }
}

/// Parsing reads a built-in strategy's label in any ASCII case, upper case
/// included, back to that strategy.
pub proof fn law_parse_ignores_ascii_case(b: OrchestratorStrategy, text: Seq<char>, r: OrchestratorStrategy)
    requires
        b.is_builtin(),
        ascii_lower(text) == b.spec_label(),
        parses_to(text, r),
    ensures
        r == b,
{
    if !(r is Custom) {
        law_strategy_labels_distinct(r, b);
    }
}

/// Two levels with the same number are the same level: `from_u8` of a
/// level's number gives that level back, and numbers above 8 name no level.
pub proof fn law_level_rank_injective(a: RecoveryEscalationLevel, b: RecoveryEscalationLevel)
    ensures
        a.rank() == b.rank() ==> a == b,
        a.rank() <= 8,
{
}

} // verus!
