//! Package trust / safety levels and the `[safety]` metadata of a package.
use vstd::prelude::*;
use crate::text::{concat3, str_eq};

verus! {

/// Package trust / safety level for deployment gating.
#[derive(Debug, Clone, Copy, PartialEq, Eq, Structural, Hash)]
pub enum SafetyLevel {
    Experimental,
    SimulationOnly,
    HardwareSafe,
    Certified,
}

impl SafetyLevel {
    /// Every level, from least to most trusted.
    pub fn all() -> (r: Vec<SafetyLevel>)
        ensures
            r@ == seq![
                SafetyLevel::Experimental,
                SafetyLevel::SimulationOnly,
                SafetyLevel::HardwareSafe,
                SafetyLevel::Certified,
            ],
    {
        vec![
            SafetyLevel::Experimental,
            SafetyLevel::SimulationOnly,
            SafetyLevel::HardwareSafe,
            SafetyLevel::Certified,
        ]
    }

    /// The level's name in `spanda.toml`.
    pub open spec fn spec_as_str(self) -> Seq<char> {
        match self {
            SafetyLevel::Experimental => "experimental"@,
            SafetyLevel::SimulationOnly => "simulation_only"@,
            SafetyLevel::HardwareSafe => "hardware_safe"@,
            SafetyLevel::Certified => "certified"@,
        }
    }

    /// The level's name in `spanda.toml`.
    pub fn as_str(&self) -> (r: &'static str)
        ensures
            r@ == self.spec_as_str(),
    {
        match self {
            SafetyLevel::Experimental => "experimental",
            SafetyLevel::SimulationOnly => "simulation_only",
            SafetyLevel::HardwareSafe => "hardware_safe",
            SafetyLevel::Certified => "certified",
        }
    }

    /// Whether this level may control physical actuators on real hardware.
    pub fn can_control_actuators_default(&self) -> (r: bool)
        ensures
            r == (*self is HardwareSafe || *self is Certified),
    {
        match self {
            SafetyLevel::HardwareSafe | SafetyLevel::Certified => true,
            _ => false,
        }
    }

    /// Whether packages at this level require manual review before deployment.
    pub fn requires_review_default(&self) -> (r: bool)
        ensures
            r == (*self is Experimental || *self is SimulationOnly),
    {
        match self {
            SafetyLevel::Experimental | SafetyLevel::SimulationOnly => true,
            _ => false,
        }
    }

    /// Parse a level from its name: the level whose name it is, or the
    /// error `unknown safety level '<s>'`.
    pub fn parse(s: &str) -> (r: Result<SafetyLevel, String>)
        ensures
            match r {
                Ok(l) => l.spec_as_str() == s@,
                Err(e) => (forall|l: SafetyLevel| l.spec_as_str() != s@) && e@
                    == "unknown safety level '"@ + s@ + "'"@,
            },
    {
        if str_eq(s, "experimental") {
            Ok(SafetyLevel::Experimental)
        } else if str_eq(s, "simulation_only") {
            Ok(SafetyLevel::SimulationOnly)
        } else if str_eq(s, "hardware_safe") {
            Ok(SafetyLevel::HardwareSafe)
        } else if str_eq(s, "certified") {
            Ok(SafetyLevel::Certified)
        } else {
            proof {
                reveal_strlit("experimental");
                reveal_strlit("simulation_only");
                reveal_strlit("hardware_safe");
                reveal_strlit("certified");
                assert forall|l: SafetyLevel| l.spec_as_str() != s@ by {
                    match l {
                        SafetyLevel::Experimental => {},
                        SafetyLevel::SimulationOnly => {},
                        SafetyLevel::HardwareSafe => {},
                        SafetyLevel::Certified => {},
                    }
                }
            }
            Err(concat3("unknown safety level '", s, "'"))
        }
    }
}

impl Default for SafetyLevel {
    fn default() -> (r: SafetyLevel)
        ensures
            r == SafetyLevel::Experimental,
    {
        SafetyLevel::Experimental
    }
}

impl std::str::FromStr for SafetyLevel {
    type Err = String;

    /// The level whose name `s` is, or the error `unknown safety level '<s>'`.
    fn from_str(s: &str) -> (r: Result<SafetyLevel, String>)
        ensures
            match r {
                Ok(l) => l.spec_as_str() == s@,
                Err(e) => (forall|l: SafetyLevel| l.spec_as_str() != s@) && e@
                    == "unknown safety level '"@ + s@ + "'"@,
            },
    {
        SafetyLevel::parse(s)
    }
}

/// Safety metadata from `[safety]` in spanda.toml.
#[derive(Debug, Clone, Copy, PartialEq, Eq, Structural)]
pub struct SafetyMetadata {
    pub level: SafetyLevel,
    pub requires_review: bool,
    pub can_control_actuators: bool,
}

/// The value `requires_review` takes when `spanda.toml` leaves it out.
pub fn default_true() -> (r: bool)
    ensures
        r,
{
    true
}

impl Default for SafetyMetadata {
    fn default() -> (r: SafetyMetadata)
        ensures
            r == (SafetyMetadata {
                level: SafetyLevel::Experimental,
                requires_review: true,
                can_control_actuators: false,
            }),
    {
        let level = SafetyLevel::Experimental;
        SafetyMetadata {
            level,
            requires_review: level.requires_review_default(),
            can_control_actuators: level.can_control_actuators_default(),
        }
    }
}

/// What `normalize` makes of safety metadata: an experimental package that
/// does not control actuators gets the experimental review requirement.
pub open spec fn normalized(m: SafetyMetadata) -> SafetyMetadata {
    if m.level is Experimental && !m.can_control_actuators {
        SafetyMetadata { requires_review: true, ..m }
    } else {
        m
    }
}

impl SafetyMetadata {
    /// Restore the default review requirement of experimental packages that
    /// do not control actuators.
    pub fn normalize(&mut self)
        ensures
            *final(self) == normalized(*old(self)),
    {
        let experimental = match self.level {
            SafetyLevel::Experimental => true,
            _ => false,
        };
        if experimental && !self.can_control_actuators {
            self.requires_review = self.level.requires_review_default();
        }
    }
}

/// Normalizing twice is normalizing once.
pub proof fn law_normalize_idempotent(m: SafetyMetadata)
    ensures
        normalized(normalized(m)) == normalized(m),
{
}

/// Every level's name parses back to that level, and names are distinct.
pub proof fn law_level_name_roundtrip(a: SafetyLevel, b: SafetyLevel)
    ensures
        a.spec_as_str() == b.spec_as_str() ==> a == b,
{
    reveal_strlit("experimental");
    reveal_strlit("simulation_only");
    reveal_strlit("hardware_safe");
    reveal_strlit("certified");
    if a != b {
        match a {
            SafetyLevel::Experimental => assert(a.spec_as_str()[0] != b.spec_as_str()[0] || a.spec_as_str().len() != b.spec_as_str().len()),
            SafetyLevel::SimulationOnly => assert(a.spec_as_str()[0] != b.spec_as_str()[0] || a.spec_as_str().len() != b.spec_as_str().len()),
            SafetyLevel::HardwareSafe => assert(a.spec_as_str()[0] != b.spec_as_str()[0] || a.spec_as_str().len() != b.spec_as_str().len()),
            SafetyLevel::Certified => assert(a.spec_as_str()[0] != b.spec_as_str()[0] || a.spec_as_str().len() != b.spec_as_str().len()),
        }
    }
}

} // verus!
