//! The capability catalog: capabilities a package may declare, and those
//! that are high-risk and need explicit operator approval.
use vstd::prelude::*;
use crate::text::{concat3, str_eq};

verus! {

/// Every capability a package may declare.
pub open spec fn known_capability_names() -> Seq<Seq<char>> {
    seq![
        "camera.read"@,
        "lidar.read"@,
        "imu.read"@,
        "gps.read"@,
        "sensor.read"@,
        "motor.control"@,
        "actuator.control"@,
        "network.outbound"@,
        "network.inbound"@,
        "storage.read"@,
        "storage.write"@,
        "audit.write"@,
        "ledger.read"@,
        "ledger.anchor"@,
        "identity.read"@,
        "identity.sign"@,
        "provenance.record"@,
    ]
}

/// The capabilities that need explicit operator approval.
pub open spec fn high_risk_capability_names() -> Seq<Seq<char>> {
    seq![
        "motor.control"@,
        "actuator.control"@,
        "audit.write"@,
        "ledger.anchor"@,
        "identity.sign"@,
    ]
}

/// Every capability a package may declare.
pub fn known_capabilities() -> (r: Vec<&'static str>)
    ensures
        r@.map_values(|s: &'static str| s@) == known_capability_names(),
{
    let r = vec![
        "camera.read",
        "lidar.read",
        "imu.read",
        "gps.read",
        "sensor.read",
        "motor.control",
        "actuator.control",
        "network.outbound",
        "network.inbound",
        "storage.read",
        "storage.write",
        "audit.write",
        "ledger.read",
        "ledger.anchor",
        "identity.read",
        "identity.sign",
        "provenance.record",
    ];
    assert(r@.map_values(|s: &'static str| s@) =~= known_capability_names());
    r
}

/// The capabilities that need explicit operator approval.
pub fn high_risk_capabilities() -> (r: Vec<&'static str>)
    ensures
        r@.map_values(|s: &'static str| s@) == high_risk_capability_names(),
{
    let r = vec!["motor.control", "actuator.control", "audit.write", "ledger.anchor", "identity.sign"];
    assert(r@.map_values(|s: &'static str| s@) =~= high_risk_capability_names());
    r
}

fn list_contains(list: &Vec<&'static str>, x: &str) -> (r: bool)
    ensures
        r == list@.map_values(|s: &'static str| s@).contains(x@),
{
    let ghost names = list@.map_values(|s: &'static str| s@);
    let mut i: usize = 0;
    while i < list.len()
        invariant
            i <= list.len(),
            names == list@.map_values(|s: &'static str| s@),
            forall|j: int| 0 <= j < i ==> names[j] != x@,
        decreases list.len() - i,
    {
        if str_eq(list[i], x) {
            assert(names[i as int] == x@);
            return true;
        }
        i = i + 1;
    }
    false
}

/// Whether a capability needs explicit operator approval.
pub fn is_high_risk_capability(cap: &str) -> (r: bool)
    ensures
        r == high_risk_capability_names().contains(cap@),
{
    let list = high_risk_capabilities();
    list_contains(&list, cap)
}

/// Whether a capability is in the catalog.
pub fn is_known_capability(cap: &str) -> (r: bool)
    ensures
        r == known_capability_names().contains(cap@),
{
    let list = known_capabilities();
    list_contains(&list, cap)
}

/// Accept a capability of the catalog; refuse any other with
/// `unknown capability '<cap>'`.
pub fn validate_capability(cap: &str) -> (r: Result<(), String>)
    ensures
        r is Ok <==> known_capability_names().contains(cap@),
        r matches Err(e) ==> e@ == "unknown capability '"@ + cap@ + "'"@,
{
    if is_known_capability(cap) {
        Ok(())
    } else {
        Err(concat3("unknown capability '", cap, "'"))
    }
}

/// Every high-risk capability is a known one.
pub proof fn law_high_risk_capabilities_are_known(cap: Seq<char>)
    ensures
        high_risk_capability_names().contains(cap) ==> known_capability_names().contains(cap),
{
    if high_risk_capability_names().contains(cap) {
        let i = choose|i: int| 0 <= i < high_risk_capability_names().len() && high_risk_capability_names()[i] == cap;
        let k: int = if i == 0 { 5 } else if i == 1 { 6 } else if i == 2 { 11 } else if i == 3 { 13 } else { 15 };
        assert(known_capability_names()[k] == cap);
    }
}

} // verus!
