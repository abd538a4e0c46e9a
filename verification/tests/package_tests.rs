//! Package registry, capability, safety and validation tests.

use spanda_platform::package::error::PackageError;
use spanda_platform::package::capability::{
    high_risk_capabilities, is_high_risk_capability, known_capabilities, validate_capability,
};
use spanda_platform::package::official::{
    installed_official_packages, is_official_package, official_packages_for_project,
    official_packages_from_lockfile, official_packages_from_manifest,
};
use spanda_platform::package::registry::{
    all_import_paths, find_registry_entry, local_registry, resolve_package_import, search_registry,
    search_registry_lowered, PackageCategory,
};
use spanda_platform::package::safety::{default_true, SafetyLevel, SafetyMetadata};
use spanda_platform::package::validation::{
    check_capability_excess, validate_adapter, validate_dependencies, validate_license,
    validate_package, validate_package_in, validate_safety, validate_version, ApplicationPermissions,
    CapabilityRequirements, DependencyDecl, HardwareRequirement, PackageFacts, ValidationReport, ValidationSeverity,
};

fn facts(level: SafetyLevel, can_control: bool, uses: Vec<&str>) -> PackageFacts {
    PackageFacts {
        version: "0.1.0".to_string(),
        license: None,
        license_compat: Vec::new(),
        capabilities: CapabilityRequirements {
            uses: uses.into_iter().map(String::from).collect(),
            required: Vec::new(),
        },
        hardware_targets: Vec::new(),
        safety: SafetyMetadata {
            level,
            requires_review: true,
            can_control_actuators: can_control,
        },
        adapter_requires: Vec::new(),
        adapter_provides: Vec::new(),
        dependencies: Vec::new(),
        hardware_memory: None,
        hardware_gpu: None,
    }
}

fn empty_perms() -> ApplicationPermissions {
    ApplicationPermissions {
        capabilities: Vec::new(),
        hardware_targets: Vec::new(),
        allowed_safety_levels: Vec::new(),
        allowed_licenses: Vec::new(),
    }
}

#[test]
fn registry_includes_blockchain_packages() {
    let ledger = search_registry("ledger");
    assert!(ledger.iter().any(|e| e.name == "spanda-ledger"));
    let provenance = search_registry("provenance");
    assert!(provenance.iter().any(|e| e.name == "spanda-provenance"));
    assert!(resolve_package_import("ledger.mock"));
    assert!(resolve_package_import("provenance.core"));
    assert!(resolve_package_import("identity.core"));
}

#[test]
fn high_risk_capability_detection() {
    assert!(is_high_risk_capability("ledger.anchor"));
    assert!(is_high_risk_capability("identity.sign"));
    assert!(!is_high_risk_capability("camera.read"));
    assert!(high_risk_capabilities().contains(&"audit.write"));
}

#[test]
fn capability_validation_known_and_unknown() {
    assert!(validate_capability("camera.read").is_ok());
    assert!(validate_capability("unknown.cap").is_err());
}

#[test]
fn unknown_capability_error_names_it() {
    assert_eq!(
        validate_capability("unknown.cap"),
        Err("unknown capability 'unknown.cap'".to_string())
    );
}

#[test]
fn high_risk_capabilities_are_known() {
    let known = known_capabilities();
    for cap in high_risk_capabilities() {
        assert!(known.contains(&cap));
    }
}

#[test]
fn search_is_case_insensitive_on_query() {
    let hits = search_registry("ROS");
    assert_eq!(hits.len(), 1);
    assert_eq!(hits[0].name, "spanda-ros2");
    assert!(search_registry("no-such-thing").is_empty());
    let vision = search_registry("vision");
    assert!(vision.iter().any(|e| e.name == "spanda-vision"));
}

#[test]
fn search_takes_lowered_query_as_given() {
    let names = |v: Vec<spanda_platform::package::registry::RegistryEntry>| -> Vec<&'static str> {
        v.iter().map(|e| e.name).collect()
    };
    assert_eq!(names(search_registry("VISION")), names(search_registry_lowered("vision")));
    assert!(search_registry_lowered("ROS").is_empty());
    assert_eq!(names(search_registry_lowered("ros")), vec!["spanda-ros2"]);
}

#[test]
fn search_matches_category_and_description() {
    let audit = search_registry("audit");
    assert!(audit.iter().any(|e| e.category == PackageCategory::Audit));
    let drivers = search_registry("driver");
    assert_eq!(drivers.len(), 1);
    assert_eq!(drivers[0].name, "spanda-lidar-rplidar");
}

#[test]
fn find_registry_entry_by_exact_name() {
    let e = find_registry_entry("spanda-mqtt").unwrap();
    assert_eq!(e.license, "Apache-2.0");
    assert_eq!(e.import_paths, vec!["communication.mqtt"]);
    assert!(find_registry_entry("spanda").is_none());
    assert_eq!(local_registry().len(), 8);
}

#[test]
fn import_paths_sorted_and_unique() {
    let paths = all_import_paths();
    let mut sorted = paths.clone();
    sorted.sort();
    sorted.dedup();
    assert_eq!(paths, sorted);
    assert!(paths.contains(&"robotics.ros2".to_string()));
    assert!(paths.contains(&"sensors.gps".to_string()));
    assert!(!resolve_package_import("robotics"));
}

#[test]
fn official_packages_are_filtered_sorted_unique() {
    let found = installed_official_packages(&["spanda-ros2", "my-local-lib", "spanda-gps", "spanda-ros2"]);
    assert_eq!(found, vec!["spanda-gps".to_string(), "spanda-ros2".to_string()]);
    assert!(is_official_package("spanda-gps"));
    assert!(!is_official_package("my-local-lib"));
    let deps = vec!["spanda-mqtt".to_string(), "other".to_string()];
    assert_eq!(official_packages_from_manifest(&deps), vec!["spanda-mqtt".to_string()]);
    assert_eq!(official_packages_from_lockfile(&deps), vec!["spanda-mqtt".to_string()]);
}

#[test]
fn project_prefers_lockfile_over_manifest() {
    let lock = vec!["spanda-ota".to_string()];
    let manifest = vec!["spanda-cloud".to_string()];
    assert_eq!(
        official_packages_for_project(Some(&lock), Some(&manifest)),
        Some(vec!["spanda-ota".to_string()])
    );
    assert_eq!(
        official_packages_for_project(None, Some(&manifest)),
        Some(vec!["spanda-cloud".to_string()])
    );
    assert_eq!(official_packages_for_project(None, None), None);
}

#[test]
fn safety_level_names_and_defaults() {
    assert_eq!(SafetyLevel::all().len(), 4);
    for level in SafetyLevel::all() {
        assert_eq!(SafetyLevel::parse(level.as_str()), Ok(level));
    }
    assert_eq!(
        SafetyLevel::parse("reckless"),
        Err("unknown safety level 'reckless'".to_string())
    );
    assert!(SafetyLevel::Certified.can_control_actuators_default());
    assert!(!SafetyLevel::SimulationOnly.can_control_actuators_default());
    assert!(SafetyLevel::Experimental.requires_review_default());
    assert!(!SafetyLevel::HardwareSafe.requires_review_default());
    assert_eq!(SafetyLevel::default(), SafetyLevel::Experimental);
    assert!(default_true());
}

#[test]
fn safety_metadata_normalize() {
    let d = SafetyMetadata::default();
    assert_eq!(d.level, SafetyLevel::Experimental);
    assert!(d.requires_review);
    assert!(!d.can_control_actuators);
    let mut m = SafetyMetadata {
        level: SafetyLevel::Experimental,
        requires_review: false,
        can_control_actuators: false,
    };
    m.normalize();
    assert!(m.requires_review);
    let once = m;
    m.normalize();
    assert_eq!(m, once);
    let mut hw = SafetyMetadata {
        level: SafetyLevel::HardwareSafe,
        requires_review: false,
        can_control_actuators: true,
    };
    hw.normalize();
    assert!(!hw.requires_review);
}

#[test]
fn validates_safety_level_conflict() {
    let perms = ApplicationPermissions::permissive(Vec::new());
    let err = validate_package(&facts(SafetyLevel::SimulationOnly, true, Vec::new()), &perms, &Vec::new())
        .unwrap_err();
    assert!(err.to_string().contains("simulation_only"));
}

#[test]
fn package_safety_level_validation() {
    let perms = ApplicationPermissions::permissive(Vec::new());
    assert!(validate_package(&facts(SafetyLevel::SimulationOnly, true, Vec::new()), &perms, &Vec::new()).is_err());
}

#[test]
fn warns_on_capability_excess() {
    let mut perms = empty_perms();
    perms.capabilities.push("lidar.read".to_string());
    perms.allowed_safety_levels.push(SafetyLevel::Experimental);
    let report = validate_package(&facts(SafetyLevel::Experimental, false, vec!["camera.read"]), &perms, &Vec::new())
        .unwrap();
    assert!(report.warnings.iter().any(|w| w.contains("camera.read")));
    assert!(report.ok());
}

#[test]
fn audit_package_manifest_validation() {
    let mut perms = empty_perms();
    perms.capabilities.push("camera.read".to_string());
    perms.allowed_safety_levels.push(SafetyLevel::Experimental);
    let f = facts(
        SafetyLevel::Experimental,
        false,
        vec!["ledger.anchor", "network.outbound", "audit.write"],
    );
    let report = validate_package(&f, &perms, &Vec::new()).unwrap();
    assert!(report.warnings.iter().any(|w| w.contains("ledger.anchor")));
    assert!(report.warnings.iter().any(|w| w
        == "package requires capability 'ledger.anchor' not granted to application — requires explicit approval"));
    assert!(report.warnings.iter().any(|w| w
        == "package requires capability 'network.outbound' not granted to application — runtime may deny access"));
    assert!(report.warnings.iter().any(|w| w
        == "high-risk capability 'audit.write' declared — ensure explicit operator approval"));
}

#[test]
fn report_push_and_ok() {
    let mut r = ValidationReport::new();
    assert!(r.ok());
    r.push_warning("cat", "careful".to_string());
    assert!(r.ok());
    assert_eq!(r.warnings, vec!["careful".to_string()]);
    r.push_error("cat", "broken".to_string());
    assert!(!r.ok());
    assert_eq!(r.issues.len(), 2);
    assert_eq!(r.issues[1].severity, ValidationSeverity::Error);
    assert_eq!(r.warnings.len(), 1);
}

#[test]
fn safety_validation_messages() {
    let perms = empty_perms();
    let mut r = ValidationReport::new();
    let m = SafetyMetadata {
        level: SafetyLevel::SimulationOnly,
        requires_review: true,
        can_control_actuators: true,
    };
    validate_safety(&m, &perms, &mut r);
    let msgs: Vec<&str> = r.issues.iter().map(|i| i.message.as_str()).collect();
    assert_eq!(
        msgs,
        vec![
            "safety level 'simulation_only' not permitted for this application",
            "package requires manual review (level: simulation_only)",
            "simulation_only packages cannot control actuators",
        ]
    );
}

#[test]
fn license_and_adapter_warnings() {
    let perms = ApplicationPermissions::permissive(Vec::new());
    let mut r = ValidationReport::new();
    validate_license(Some("GPL-3.0"), &Vec::new(), &perms, &mut r);
    assert_eq!(r.warnings, vec!["license 'GPL-3.0' may be incompatible with application policy".to_string()]);
    let mut r2 = ValidationReport::new();
    validate_license(Some("GPL-3.0"), &vec!["LGPL".to_string(), "MIT".to_string()], &perms, &mut r2);
    assert_eq!(
        r2.warnings,
        vec!["declared license compatibility 'LGPL' not in application allowlist".to_string()]
    );
    let mut r3 = ValidationReport::new();
    validate_adapter(&vec!["warp.drive".to_string()], &vec!["sym".to_string()], &mut r3);
    assert_eq!(r3.warnings, vec!["unknown capability 'warp.drive'".to_string()]);
    let mut r4 = ValidationReport::new();
    validate_adapter(&Vec::new(), &vec!["sym".to_string()], &mut r4);
    assert_eq!(
        r4.warnings,
        vec!["driver package provides symbols but declares no required capabilities".to_string()]
    );
}

#[test]
fn version_and_dependency_validation() {
    let mut r = ValidationReport::new();
    validate_version("1.2.3", &mut r);
    assert!(r.ok());
    validate_version("not-a-version", &mut r);
    assert!(!r.ok());
    assert_eq!(r.issues[0].message, "invalid semver version 'not-a-version'");
    let mut d = ValidationReport::new();
    let deps = vec![
        DependencyDecl { name: "spanda-ros2".to_string(), from_registry: true, version_req: "^0.1".to_string() },
        DependencyDecl { name: "nowhere".to_string(), from_registry: true, version_req: ">=>1".to_string() },
        DependencyDecl { name: "local".to_string(), from_registry: false, version_req: "garbage".to_string() },
    ];
    validate_dependencies(&deps, &mut d);
    assert_eq!(d.warnings, vec!["registry package 'nowhere' not in local registry stub".to_string()]);
    assert_eq!(d.issues.len(), 2);
    assert_eq!(d.issues[1].severity, ValidationSeverity::Error);
    assert!(d.issues[1].message.starts_with("invalid version constraint for 'nowhere': "));
}

#[test]
fn excess_without_grant_warns_once_per_capability() {
    let perms = empty_perms();
    let caps = CapabilityRequirements { uses: vec!["camera.read".to_string()], required: Vec::new() };
    let mut r = ValidationReport::new();
    check_capability_excess(&caps, &perms, &mut r);
    assert_eq!(r.warnings.len(), 1);
}

#[test]
fn validates_hardware_metadata() {
    let perms = ApplicationPermissions::permissive(Vec::new());
    let mut package = facts(SafetyLevel::Experimental, false, Vec::new());
    package.safety = SafetyMetadata::default();
    package.hardware_memory = Some(HardwareRequirement { text: ">=2GB".to_string(), parsed: true });
    package.hardware_gpu = Some(HardwareRequirement { text: ">=1 TOPS".to_string(), parsed: true });
    let report = validate_package(&package, &perms, &Vec::new()).unwrap();
    assert!(report.ok());
}

#[test]
fn unreadable_hardware_requirements() {
    let perms = ApplicationPermissions::permissive(Vec::new());
    let mut package = facts(SafetyLevel::Experimental, false, Vec::new());
    package.safety = SafetyMetadata::default();
    package.hardware_gpu = Some(HardwareRequirement { text: "fast".to_string(), parsed: false });
    let report = validate_package(&package, &perms, &Vec::new()).unwrap();
    assert_eq!(report.warnings[0], "could not parse GPU requirement 'fast'");
    package.hardware_gpu = Some(HardwareRequirement { text: "GPU REQUIRED".to_string(), parsed: false });
    assert!(!validate_package(&package, &perms, &Vec::new()).unwrap().issues.iter().any(|i| i.category == "hardware"));
    package.hardware_memory = Some(HardwareRequirement { text: "lots".to_string(), parsed: false });
    let err = validate_package(&package, &perms, &Vec::new()).unwrap_err();
    assert_eq!(err, PackageError::Validation("could not parse memory requirement 'lots'".to_string()));
    assert_eq!(err.to_string(), "validation error: could not parse memory requirement 'lots'");
}

#[test]
fn warns_on_official_name_path_override() {
    let perms = ApplicationPermissions::permissive(Vec::new());
    let mut package = facts(SafetyLevel::Experimental, false, Vec::new());
    package.safety = SafetyMetadata::default();
    let overrides = vec!["spanda-mqtt".to_string()];
    let report = validate_package_in(&package, &perms, &Vec::new(), Some(&overrides)).unwrap();
    assert!(report.issues.iter().any(|issue| {
        issue.category == "official_provenance"
            && issue.message.contains("spanda-mqtt")
            && issue.message.contains("registry provenance")
    }));
    assert!(!validate_package(&package, &perms, &Vec::new())
        .unwrap()
        .issues
        .iter()
        .any(|i| i.category == "official_provenance"));
}
