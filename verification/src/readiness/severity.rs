//! Severity of a readiness finding.
use vstd::prelude::*;

verus! {

/// Severity of a readiness issue, from least to most severe.
#[derive(Debug, Clone, Copy, PartialEq, Eq, Structural, Hash)]
pub enum ReadinessSeverity {
    Info,
    Low,
    Medium,
    High,
    Critical,
}

impl ReadinessSeverity {
    /// Position of the severity, from `Info` (0) to `Critical` (4).
    pub open spec fn rank(self) -> nat {
        match self {
            ReadinessSeverity::Info => 0,
            ReadinessSeverity::Low => 1,
            ReadinessSeverity::Medium => 2,
            ReadinessSeverity::High => 3,
            ReadinessSeverity::Critical => 4,
        }
    }

    /// Position of the severity, from `Info` (0) to `Critical` (4).
    pub fn level(&self) -> (r: u8)
        ensures
            r as nat == self.rank(),
    {
        match self {
            ReadinessSeverity::Info => 0,
            ReadinessSeverity::Low => 1,
            ReadinessSeverity::Medium => 2,
            ReadinessSeverity::High => 3,
            ReadinessSeverity::Critical => 4,
        }
    }

    /// Whether this severity is at least `other`.
    pub fn at_least(&self, other: ReadinessSeverity) -> (r: bool)
        ensures
            r == (self.rank() >= other.rank()),
    {
        self.level() >= other.level()
    }

    /// The variant name, as `{:?}` prints it.
    pub open spec fn spec_debug_name(self) -> Seq<char> {
        match self {
            ReadinessSeverity::Info => "Info"@,
            ReadinessSeverity::Low => "Low"@,
            ReadinessSeverity::Medium => "Medium"@,
            ReadinessSeverity::High => "High"@,
            ReadinessSeverity::Critical => "Critical"@,
        }
    }

    /// The variant name, as `{:?}` prints it.
    pub fn debug_name(&self) -> (r: &'static str)
        ensures
            r@ == self.spec_debug_name(),
    {
        match self {
            ReadinessSeverity::Info => "Info",
            ReadinessSeverity::Low => "Low",
            ReadinessSeverity::Medium => "Medium",
            ReadinessSeverity::High => "High",
            ReadinessSeverity::Critical => "Critical",
        }
    }
}

/// The diagnostic label of a severity: critical and high are errors, medium
/// is a warning, the rest are informational.
pub open spec fn spec_severity_label(s: ReadinessSeverity) -> Seq<char> {
    match s {
        ReadinessSeverity::Critical => "error"@,
        ReadinessSeverity::High => "error"@,
        ReadinessSeverity::Medium => "warning"@,
        ReadinessSeverity::Low => "info"@,
        ReadinessSeverity::Info => "info"@,
    }
}

/// The diagnostic label of a severity.
pub fn severity_label(s: ReadinessSeverity) -> (r: &'static str)
    ensures
        r@ == spec_severity_label(s),
{
    match s {
        ReadinessSeverity::Critical => "error",
        ReadinessSeverity::High => "error",
        ReadinessSeverity::Medium => "warning",
        ReadinessSeverity::Low => "info",
        ReadinessSeverity::Info => "info",
    }
}

} // verus!
