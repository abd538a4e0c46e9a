//! Errors of package operations.
use vstd::prelude::*;
use crate::text::concat2;

verus! {

/// An error of a package operation, by the stage that refused it.
#[derive(Debug, Clone, PartialEq, Eq)]
pub enum PackageError {
    Manifest(String),
    Dependency(String),
    Lockfile(String),
    Validation(String),
}

/// The text of an error: its stage, then its message.
pub open spec fn package_error_text(e: PackageError) -> Seq<char> {
    match e {
        PackageError::Manifest(m) => "manifest error: "@ + m@,
        PackageError::Dependency(m) => "dependency error: "@ + m@,
        PackageError::Lockfile(m) => "lockfile error: "@ + m@,
        PackageError::Validation(m) => "validation error: "@ + m@,
    }
}

impl PackageError {
    /// The error as text: `<stage> error: <message>`.
    pub fn to_string(&self) -> (r: String)
        ensures
            r@ == package_error_text(*self),
    {
        match self {
            PackageError::Manifest(m) => concat2("manifest error: ", m.as_str()),
            PackageError::Dependency(m) => concat2("dependency error: ", m.as_str()),
            PackageError::Lockfile(m) => concat2("lockfile error: ", m.as_str()),
            PackageError::Validation(m) => concat2("validation error: ", m.as_str()),
        }
    }
}

} // verus!
