//! Package manifest validation against application permissions.
use vstd::prelude::*;
use crate::text::{
    concat3, contains_text, has_text, seq_contains, str_contains, str_eq, texts, to_lowercase, unicode_lower,
};
use crate::package::capability::{
    high_risk_capability_names, is_high_risk_capability, known_capabilities,
    known_capability_names, validate_capability,
};
use crate::package::safety::{SafetyLevel, SafetyMetadata};
use crate::package::registry::{find_registry_entry, local_registry_views};

use crate::package::error::PackageError;

verus! {

/// Application-level permissions granted to the root package.
#[derive(Debug, Clone)]
pub struct ApplicationPermissions {
    pub capabilities: Vec<String>,
    pub hardware_targets: Vec<String>,
    pub allowed_safety_levels: Vec<SafetyLevel>,
    pub allowed_licenses: Vec<String>,
}

impl ApplicationPermissions {
    /// Every known capability, the given hardware profiles, every safety
    /// level and the permissive open-source licenses.
    pub fn permissive(hardware_profiles: Vec<String>) -> (r: ApplicationPermissions)
        ensures
            forall|t: Seq<char>| has_text(r.capabilities@, t) <==> known_capability_names().contains(t),
            r.hardware_targets@ == hardware_profiles@,
            r.allowed_safety_levels@ == seq![
                SafetyLevel::Experimental,
                SafetyLevel::SimulationOnly,
                SafetyLevel::HardwareSafe,
                SafetyLevel::Certified,
            ],
            texts(r.allowed_licenses@) == seq!["Apache-2.0"@, "MIT"@, "BSD-3-Clause"@],
    {
        let known = known_capabilities();
        let ghost kn = known@.map_values(|s: &'static str| s@);
        let mut caps: Vec<String> = Vec::new();
        let mut i: usize = 0;
        while i < known.len()
            invariant
                i <= known.len(),
                kn == known@.map_values(|s: &'static str| s@),
                caps@.len() == i,
                forall|k: int| 0 <= k < i ==> (#[trigger] caps@[k])@ == kn[k],
            decreases known.len() - i,
        {
            caps.push(known[i].to_owned());
            i = i + 1;
        }
        proof {
            assert forall|t: Seq<char>| has_text(caps@, t) <==> kn.contains(t) by {
                if has_text(caps@, t) {
                    let k = choose|k: int| 0 <= k < caps@.len() && #[trigger] caps@[k]@ == t;
                    assert(kn[k] == t);
                }
                if kn.contains(t) {
                    let k = choose|k: int| 0 <= k < kn.len() && kn[k] == t;
                    assert(caps@[k]@ == t);
                }
            }
        }
        let licenses = vec!["Apache-2.0".to_owned(), "MIT".to_owned(), "BSD-3-Clause".to_owned()];
        assert(texts(licenses@) =~= seq!["Apache-2.0"@, "MIT"@, "BSD-3-Clause"@]);
        ApplicationPermissions {
            capabilities: caps,
            hardware_targets: hardware_profiles,
            allowed_safety_levels: SafetyLevel::all(),
            allowed_licenses: licenses,
        }
    }
}

/// Severity of a validation issue.
#[derive(Debug, Clone, Copy, PartialEq, Eq, Structural)]
pub enum ValidationSeverity {
    Error,
    Warning,
}

/// One finding of package validation.
#[derive(Debug, Clone, PartialEq, Eq)]
pub struct ValidationIssue {
    pub severity: ValidationSeverity,
    pub category: String,
    pub message: String,
}

/// Findings of package validation: every issue, and the warning messages.
#[derive(Debug, Clone)]
pub struct ValidationReport {
    pub issues: Vec<ValidationIssue>,
    pub warnings: Vec<String>,
}

/// The view of an issue: severity, category and message.
pub open spec fn issue_view(i: ValidationIssue) -> (ValidationSeverity, Seq<char>, Seq<char>) {
    (i.severity, i.category@, i.message@)
}

impl View for ValidationReport {
    type V = (Seq<(ValidationSeverity, Seq<char>, Seq<char>)>, Seq<Seq<char>>);

    open spec fn view(&self) -> Self::V {
        (self.issues@.map_values(|i: ValidationIssue| issue_view(i)), texts(self.warnings@))
    }
}

/// A report view with an error added.
pub open spec fn with_error(
    r: (Seq<(ValidationSeverity, Seq<char>, Seq<char>)>, Seq<Seq<char>>),
    category: Seq<char>,
    message: Seq<char>,
) -> (Seq<(ValidationSeverity, Seq<char>, Seq<char>)>, Seq<Seq<char>>) {
    (r.0.push((ValidationSeverity::Error, category, message)), r.1)
}

/// A report view with a warning added.
pub open spec fn with_warning(
    r: (Seq<(ValidationSeverity, Seq<char>, Seq<char>)>, Seq<Seq<char>>),
    category: Seq<char>,
    message: Seq<char>,
) -> (Seq<(ValidationSeverity, Seq<char>, Seq<char>)>, Seq<Seq<char>>) {
    (r.0.push((ValidationSeverity::Warning, category, message)), r.1.push(message))
}

/// No issue of the view is an error.
pub open spec fn no_errors(issues: Seq<(ValidationSeverity, Seq<char>, Seq<char>)>) -> bool {
    forall|i: int| 0 <= i < issues.len() ==> !((#[trigger] issues[i]).0 is Error)
}

/// The warnings are the messages of the warning issues, in order.
pub open spec fn warnings_match(r: (Seq<(ValidationSeverity, Seq<char>, Seq<char>)>, Seq<Seq<char>>)) -> bool
    decreases r.0.len(),
{
    if r.0.len() == 0 {
        r.1.len() == 0
    } else if r.0.last().0 is Warning {
        r.1.len() > 0 && r.1.last() == r.0.last().2 && warnings_match((r.0.drop_last(), r.1.drop_last()))
    } else {
        warnings_match((r.0.drop_last(), r.1))
    }
}

impl ValidationReport {
    /// An empty report.
    pub fn new() -> (r: ValidationReport)
        ensures
            r@.0.len() == 0,
            r@.1.len() == 0,
    {
        ValidationReport { issues: Vec::new(), warnings: Vec::new() }
    }

    /// Whether no issue is an error.
    pub fn ok(&self) -> (r: bool)
        ensures
            r == no_errors(self@.0),
    {
        let mut i: usize = 0;
        while i < self.issues.len()
            invariant
                i <= self.issues.len(),
                forall|k: int| 0 <= k < i ==> !((#[trigger] self@.0[k]).0 is Error),
            decreases self.issues.len() - i,
        {
            match self.issues[i].severity {
                ValidationSeverity::Error => {
                    assert(self@.0[i as int].0 is Error);
                    return false;
                },
                ValidationSeverity::Warning => {},
            }
            i = i + 1;
        }
        true
    }

    /// Record an error.
    pub fn push_error(&mut self, category: &str, message: String)
        ensures
            final(self)@ == with_error(old(self)@, category@, message@),
    {
        let ghost before = self@;
        self.issues.push(
            ValidationIssue {
                severity: ValidationSeverity::Error,
                category: category.to_owned(),
                message,
            },
        );
        assert(self@.0 =~= before.0.push((ValidationSeverity::Error, category@, message@)));
    }

    /// Record a warning: an issue, and its message among the warnings.
    pub fn push_warning(&mut self, category: &str, message: String)
        ensures
            final(self)@ == with_warning(old(self)@, category@, message@),
    {
        let ghost before = self@;
        let ghost m = message@;
        let copy = message.clone();
        self.warnings.push(copy);
        self.issues.push(
            ValidationIssue {
                severity: ValidationSeverity::Warning,
                category: category.to_owned(),
                message,
            },
        );
        assert(self@.0 =~= before.0.push((ValidationSeverity::Warning, category@, m)));
        assert(self@.1 =~= before.1.push(m));
    }
}

impl Default for ValidationReport {
    fn default() -> (r: ValidationReport)
        ensures
            r@.0.len() == 0,
            r@.1.len() == 0,
    {
        ValidationReport::new()
    }
}

/// Recording an error makes a report fail; recording a warning leaves
/// whether it fails unchanged; both keep the warnings those of the warning
/// issues.
pub proof fn law_push_keeps_report_consistent(
    r: (Seq<(ValidationSeverity, Seq<char>, Seq<char>)>, Seq<Seq<char>>),
    category: Seq<char>,
    message: Seq<char>,
)
    ensures
        !no_errors(with_error(r, category, message).0),
        no_errors(with_warning(r, category, message).0) == no_errors(r.0),
        warnings_match(r) ==> warnings_match(with_error(r, category, message)),
        warnings_match(r) ==> warnings_match(with_warning(r, category, message)),
{
    let e = with_error(r, category, message);
    assert(e.0[r.0.len() as int].0 is Error);
    let w = with_warning(r, category, message);
    assert(e.0.drop_last() =~= r.0);
    assert(w.0.drop_last() =~= r.0);
    assert(w.1.drop_last() =~= r.1);
    if no_errors(r.0) {
        assert forall|i: int| 0 <= i < w.0.len() implies !((#[trigger] w.0[i]).0 is Error) by {
            if i < r.0.len() {
                assert(w.0[i] == r.0[i]);
            }
        }
    }
    if !no_errors(r.0) {
        let i = choose|i: int| 0 <= i < r.0.len() && (#[trigger] r.0[i]).0 is Error;
        assert(w.0[i] == r.0[i]);
    }
}

/// A report view.
pub open spec fn rv_empty() -> (Seq<(ValidationSeverity, Seq<char>, Seq<char>)>, Seq<Seq<char>>) {
    (Seq::empty(), Seq::empty())
}

/// Add the warning `w` gives for each item of `items`, in order.
pub open spec fn warn_each(
    r: (Seq<(ValidationSeverity, Seq<char>, Seq<char>)>, Seq<Seq<char>>),
    items: Seq<Seq<char>>,
    w: spec_fn(Seq<char>) -> Option<(Seq<char>, Seq<char>)>,
) -> (Seq<(ValidationSeverity, Seq<char>, Seq<char>)>, Seq<Seq<char>>)
    decreases items.len(),
{
    if items.len() == 0 {
        r
    } else {
        let prev = warn_each(r, items.drop_last(), w);
        match w(items.last()) {
            Some(cm) => with_warning(prev, cm.0, cm.1),
            None => prev,
        }
    }
}

/// The warning for a capability outside the catalog, under a category.
pub open spec fn unknown_capability_warning(category: Seq<char>) -> spec_fn(Seq<char>) -> Option<
    (Seq<char>, Seq<char>),
> {
    |cap: Seq<char>|
        if known_capability_names().contains(cap) {
            None
        } else {
            Some((category, "unknown capability '"@ + cap + "'"@))
        }
}


fn warn_unknown_capabilities(report: &mut ValidationReport, category: &str, caps: &Vec<String>)
    ensures
        final(report)@ == warn_each(old(report)@, texts(caps@), unknown_capability_warning(category@)),
{
    let ghost items = texts(caps@);
    let ghost w = unknown_capability_warning(category@);
    let mut i: usize = 0;
    assert(items.take(0) =~= Seq::<Seq<char>>::empty());
    while i < caps.len()
        invariant
            i <= caps.len(),
            items == texts(caps@),
            w == unknown_capability_warning(category@),
            report@ == warn_each(old(report)@, items.take(i as int), w),
        decreases caps.len() - i,
    {
        assert(items.take(i + 1).drop_last() =~= items.take(i as int));
        assert(items.take(i + 1).last() == caps@[i as int]@);
        match validate_capability(caps[i].as_str()) {
            Ok(()) => {},
            Err(e) => {
                report.push_warning(category, e);
            },
        }
        i = i + 1;
    }
    assert(items.take(caps.len() as int) =~= items);
}

/// Requirements a package declares on capabilities.
#[derive(Debug, Clone)]
pub struct CapabilityRequirements {
    pub uses: Vec<String>,
    pub required: Vec<String>,
}

impl CapabilityRequirements {
    /// Every declared capability: those used, then those required.
    pub open spec fn all_view(self) -> Seq<Seq<char>> {
        texts(self.uses@) + texts(self.required@)
    }

    /// Every declared capability: those used, then those required.
    pub fn all(&self) -> (r: Vec<String>)
        ensures
            texts(r@) == self.all_view(),
    {
        let mut r: Vec<String> = Vec::new();
        let mut i: usize = 0;
        while i < self.uses.len()
            invariant
                i <= self.uses.len(),
                texts(r@) == texts(self.uses@).take(i as int),
            decreases self.uses.len() - i,
        {
            let ghost before = r@;
            let c = self.uses[i].clone();
            r.push(c);
            assert(texts(r@) =~= texts(before).push(self.uses@[i as int]@));
            assert(texts(self.uses@).take(i + 1) =~= texts(self.uses@).take(i as int).push(self.uses@[i as int]@));
            i = i + 1;
        }
        assert(texts(self.uses@).take(self.uses.len() as int) =~= texts(self.uses@));
        let mut j: usize = 0;
        while j < self.required.len()
            invariant
                j <= self.required.len(),
                texts(r@) == texts(self.uses@) + texts(self.required@).take(j as int),
            decreases self.required.len() - j,
        {
            let ghost before = r@;
            let c = self.required[j].clone();
            r.push(c);
            assert(texts(r@) =~= texts(before).push(self.required@[j as int]@));
            assert(texts(self.required@).take(j + 1) =~= texts(self.required@).take(j as int).push(self.required@[j as int]@));
            assert(texts(r@) =~= texts(self.uses@) + texts(self.required@).take(j + 1));
            j = j + 1;
        }
        assert(texts(self.required@).take(self.required.len() as int) =~= texts(self.required@));
        r
    }
}

/// Warn about every declared capability outside the catalog.
pub fn validate_capabilities(caps: &CapabilityRequirements, report: &mut ValidationReport)
    ensures
        final(report)@ == warn_each(old(report)@, caps.all_view(), unknown_capability_warning("capabilities"@)),
{
    let all = caps.all();
    warn_unknown_capabilities(report, "capabilities", &all);
}

/// What `validate_safety` adds to a report.
pub open spec fn safety_checks(
    r: (Seq<(ValidationSeverity, Seq<char>, Seq<char>)>, Seq<Seq<char>>),
    safety: SafetyMetadata,
    allowed: Seq<SafetyLevel>,
) -> (Seq<(ValidationSeverity, Seq<char>, Seq<char>)>, Seq<Seq<char>>) {
    let name = safety.level.spec_as_str();
    let r1 = if !allowed.contains(safety.level) {
        with_error(
            r,
            "safety"@,
            "safety level '"@ + name + "' not permitted for this application"@,
        )
    } else {
        r
    };
    let r2 = if safety.requires_review {
        with_warning(r1, "safety"@, "package requires manual review (level: "@ + name + ")"@)
    } else {
        r1
    };
    if safety.can_control_actuators && safety.level is SimulationOnly {
        with_error(r2, "safety"@, "simulation_only packages cannot control actuators"@)
    } else {
        r2
    }
}

fn contains_level(v: &Vec<SafetyLevel>, l: SafetyLevel) -> (r: bool)
    ensures
        r == v@.contains(l),
{
    let mut i: usize = 0;
    while i < v.len()
        invariant
            i <= v.len(),
            forall|k: int| 0 <= k < i ==> v@[k] != l,
        decreases v.len() - i,
    {
        if v[i] == l {
            assert(v@[i as int] == l);
            return true;
        }
        i = i + 1;
    }
    false
}

/// Check the safety level against the application's allowed levels, warn
/// when manual review is required, and refuse simulation-only packages
/// that claim actuator control.
pub fn validate_safety(
    safety: &SafetyMetadata,
    app_perms: &ApplicationPermissions,
    report: &mut ValidationReport,
)
    ensures
        final(report)@ == safety_checks(old(report)@, *safety, app_perms.allowed_safety_levels@),
{
    let name = safety.level.as_str();
    if !contains_level(&app_perms.allowed_safety_levels, safety.level) {
        report.push_error("safety", concat3("safety level '", name, "' not permitted for this application"));
    }
    if safety.requires_review {
        report.push_warning("safety", concat3("package requires manual review (level: ", name, ")"));
    }
    let simulation_only = match safety.level {
        SafetyLevel::SimulationOnly => true,
        _ => false,
    };
    if safety.can_control_actuators && simulation_only {
        report.push_error("safety", "simulation_only packages cannot control actuators".to_owned());
    }
}

/// A simulation-only package that claims actuator control always fails
/// validation, whatever the application allows.
pub proof fn law_simulation_only_actuators_refused(
    r: (Seq<(ValidationSeverity, Seq<char>, Seq<char>)>, Seq<Seq<char>>),
    safety: SafetyMetadata,
    allowed: Seq<SafetyLevel>,
)
    requires
        safety.level is SimulationOnly,
        safety.can_control_actuators,
    ensures
        !no_errors(safety_checks(r, safety, allowed).0),
{
    let out = safety_checks(r, safety, allowed);
    assert(out.0[out.0.len() - 1].0 is Error);
}

/// The warning for a license compatibility the application does not allow.
pub open spec fn compat_warning(allowed: Seq<String>) -> spec_fn(Seq<char>) -> Option<
    (Seq<char>, Seq<char>),
> {
    |c: Seq<char>|
        if has_text(allowed, c) {
            None
        } else {
            Some(("license"@, "declared license compatibility '"@ + c + "' not in application allowlist"@))
        }
}

/// What `validate_license` adds to a report.
pub open spec fn license_checks(
    r: (Seq<(ValidationSeverity, Seq<char>, Seq<char>)>, Seq<Seq<char>>),
    license: Option<Seq<char>>,
    compat: Seq<Seq<char>>,
    allowed: Seq<String>,
) -> (Seq<(ValidationSeverity, Seq<char>, Seq<char>)>, Seq<Seq<char>>) {
    let r1 = match license {
        Some(l) => if allowed.len() > 0 && !has_text(allowed, l) && compat.len() == 0 {
            with_warning(r, "license"@, "license '"@ + l + "' may be incompatible with application policy"@)
        } else {
            r
        },
        None => r,
    };
    warn_each(r1, compat, compat_warning(allowed))
}

/// Warn when the package's license is not allowed (and it declares no
/// compatibility), and for each declared compatibility not allowed.
pub fn validate_license(
    license: Option<&str>,
    license_compat: &Vec<String>,
    app_perms: &ApplicationPermissions,
    report: &mut ValidationReport,
)
    ensures
        final(report)@ == license_checks(
            old(report)@,
            match license { Some(l) => Some(l@), None => None },
            texts(license_compat@),
            app_perms.allowed_licenses@,
        ),
{
    match license {
        Some(l) => {
            if app_perms.allowed_licenses.len() > 0 && !contains_text(&app_perms.allowed_licenses, l)
                && license_compat.len() == 0 {
                report.push_warning("license", concat3("license '", l, "' may be incompatible with application policy"));
            }
        },
        None => {},
    }
    let ghost start = report@;
    let ghost items = texts(license_compat@);
    let ghost w = compat_warning(app_perms.allowed_licenses@);
    let mut i: usize = 0;
    assert(items.take(0) =~= Seq::<Seq<char>>::empty());
    while i < license_compat.len()
        invariant
            i <= license_compat.len(),
            items == texts(license_compat@),
            w == compat_warning(app_perms.allowed_licenses@),
            report@ == warn_each(start, items.take(i as int), w),
        decreases license_compat.len() - i,
    {
        assert(items.take(i + 1).drop_last() =~= items.take(i as int));
        assert(items.take(i + 1).last() == license_compat@[i as int]@);
        let c = license_compat[i].as_str();
        if !contains_text(&app_perms.allowed_licenses, c) {
            report.push_warning("license", concat3("declared license compatibility '", c, "' not in application allowlist"));
        }
        i = i + 1;
    }
    assert(items.take(license_compat.len() as int) =~= items);
}

/// What `validate_adapter` adds to a report.
pub open spec fn adapter_checks(
    r: (Seq<(ValidationSeverity, Seq<char>, Seq<char>)>, Seq<Seq<char>>),
    requires_caps: Seq<Seq<char>>,
    provides: Seq<Seq<char>>,
) -> (Seq<(ValidationSeverity, Seq<char>, Seq<char>)>, Seq<Seq<char>>) {
    let r1 = warn_each(r, requires_caps, unknown_capability_warning("adapter"@));
    if provides.len() > 0 && requires_caps.len() == 0 {
        with_warning(r1, "adapter"@, "driver package provides symbols but declares no required capabilities"@)
    } else {
        r1
    }
}

/// Warn about unknown capabilities a driver requires, and about drivers
/// that provide symbols but require no capability.
pub fn validate_adapter(requires_caps: &Vec<String>, provides: &Vec<String>, report: &mut ValidationReport)
    ensures
        final(report)@ == adapter_checks(old(report)@, texts(requires_caps@), texts(provides@)),
{
    warn_unknown_capabilities(report, "adapter", requires_caps);
    if provides.len() > 0 && requires_caps.len() == 0 {
        report.push_warning(
            "adapter",
            "driver package provides symbols but declares no required capabilities".to_owned(),
        );
    }
}

/// The warning for a capability the application has not granted.
pub open spec fn excess_warning(granted: Seq<String>) -> spec_fn(Seq<char>) -> Option<
    (Seq<char>, Seq<char>),
> {
    |cap: Seq<char>|
        if has_text(granted, cap) {
            None
        } else {
            Some(
                (
                    "capabilities"@,
                    "package requires capability '"@ + cap + "' not granted to application — "@
                        + if high_risk_capability_names().contains(cap) {
                        "requires explicit approval"@
                    } else {
                        "runtime may deny access"@
                    },
                ),
            )
        }
}

/// The warning for a declared high-risk capability.
pub open spec fn high_risk_warning() -> spec_fn(Seq<char>) -> Option<(Seq<char>, Seq<char>)> {
    |cap: Seq<char>|
        if high_risk_capability_names().contains(cap) {
            Some(
                (
                    "capabilities"@,
                    "high-risk capability '"@ + cap + "' declared — ensure explicit operator approval"@,
                ),
            )
        } else {
            None
        }
}

/// Warn for each declared capability the application has not granted, and
/// for each declared high-risk capability.
pub fn check_capability_excess(
    caps: &CapabilityRequirements,
    app_perms: &ApplicationPermissions,
    report: &mut ValidationReport,
)
    ensures
        final(report)@ == warn_each(
            warn_each(old(report)@, caps.all_view(), excess_warning(app_perms.capabilities@)),
            caps.all_view(),
            high_risk_warning(),
        ),
{
    let all = caps.all();
    let ghost items = texts(all@);
    let ghost start = report@;
    let ghost w = excess_warning(app_perms.capabilities@);
    let mut i: usize = 0;
    assert(items.take(0) =~= Seq::<Seq<char>>::empty());
    while i < all.len()
        invariant
            i <= all.len(),
            items == texts(all@),
            w == excess_warning(app_perms.capabilities@),
            report@ == warn_each(start, items.take(i as int), w),
        decreases all.len() - i,
    {
        assert(items.take(i + 1).drop_last() =~= items.take(i as int));
        assert(items.take(i + 1).last() == all@[i as int]@);
        let cap = all[i].as_str();
        if !contains_text(&app_perms.capabilities, cap) {
            let mut m = concat3("package requires capability '", cap, "' not granted to application — ");
            if is_high_risk_capability(cap) {
                m.append("requires explicit approval");
            } else {
                m.append("runtime may deny access");
            }
            report.push_warning("capabilities", m);
        }
        i = i + 1;
    }
    assert(items.take(all.len() as int) =~= items);
    let ghost mid = report@;
    let ghost h = high_risk_warning();
    let mut j: usize = 0;
    while j < all.len()
        invariant
            j <= all.len(),
            items == texts(all@),
            h == high_risk_warning(),
            report@ == warn_each(mid, items.take(j as int), h),
        decreases all.len() - j,
    {
        assert(items.take(j + 1).drop_last() =~= items.take(j as int));
        assert(items.take(j + 1).last() == all@[j as int]@);
        let cap = all[j].as_str();
        if is_high_risk_capability(cap) {
            report.push_warning(
                "capabilities",
                concat3("high-risk capability '", cap, "' declared — ensure explicit operator approval"),
            );
        }
        j = j + 1;
    }
}

/// Whether `semver::Version::parse` accepts a text.
pub uninterp spec fn semver_version_parses(s: Seq<char>) -> bool;

/// `semver::Version::parse`: whether it accepts the text is named by
/// `semver_version_parses`; the parsed version itself is not used.
#[verifier::external_body]
fn version_parses(s: &str) -> (r: bool)
    ensures
        r == semver_version_parses(s@),
{
    semver::Version::parse(s).is_ok()
}

/// The error text of `semver::VersionReq::parse` on a text, or none when it
/// accepts it.
pub uninterp spec fn semver_req_error(s: Seq<char>) -> Option<Seq<char>>;

/// `semver::VersionReq::parse`: whether it accepts the text, and the text of
/// its error when it does not, are named by `semver_req_error`.
#[verifier::external_body]
fn parse_version_req(s: &str) -> (r: Result<(), String>)
    ensures
        match r {
            Ok(()) => semver_req_error(s@) is None,
            Err(e) => semver_req_error(s@) == Some(e@),
        },
{
    match semver::VersionReq::parse(s) {
        Ok(_) => Ok(()),
        Err(e) => Err(e.to_string()),
    }
}

/// Refuse a package version that is not a semver version.
pub fn validate_version(version: &str, report: &mut ValidationReport)
    ensures
        final(report)@ == if semver_version_parses(version@) {
            old(report)@
        } else {
            with_error(old(report)@, "version"@, "invalid semver version '"@ + version@ + "'"@)
        },
{
    if !version_parses(version) {
        report.push_error("version", concat3("invalid semver version '", version, "'"));
    }
}

/// A declared dependency: its name, whether it comes from the registry, and
/// its version constraint.
#[derive(Debug, Clone)]
pub struct DependencyDecl {
    pub name: String,
    pub from_registry: bool,
    pub version_req: String,
}

/// The local registry has a package of this name.
pub open spec fn in_local_registry(name: Seq<char>) -> bool {
    exists|i: int| 0 <= i < local_registry_views().len() && (#[trigger] local_registry_views()[i]).0 == name
}

/// What `validate_dependencies` adds to a report, dependency by dependency.
pub open spec fn dependency_checks(
    r: (Seq<(ValidationSeverity, Seq<char>, Seq<char>)>, Seq<Seq<char>>),
    deps: Seq<DependencyDecl>,
) -> (Seq<(ValidationSeverity, Seq<char>, Seq<char>)>, Seq<Seq<char>>)
    decreases deps.len(),
{
    if deps.len() == 0 {
        r
    } else {
        let prev = dependency_checks(r, deps.drop_last());
        let d = deps.last();
        if d.from_registry {
            let r1 = if in_local_registry(d.name@) {
                prev
            } else {
                with_warning(prev, "dependencies"@, "registry package '"@ + d.name@ + "' not in local registry stub"@)
            };
            match semver_req_error(d.version_req@) {
                Some(e) => with_error(
                    r1,
                    "dependencies"@,
                    "invalid version constraint for '"@ + d.name@ + "': "@ + e,
                ),
                None => r1,
            }
        } else {
            prev
        }
    }
}

/// Warn about registry dependencies missing from the local registry, and
/// refuse registry dependencies whose version constraint does not parse.
pub fn validate_dependencies(deps: &Vec<DependencyDecl>, report: &mut ValidationReport)
    ensures
        final(report)@ == dependency_checks(old(report)@, deps@),
{
    let mut i: usize = 0;
    assert(deps@.take(0) =~= Seq::<DependencyDecl>::empty());
    while i < deps.len()
        invariant
            i <= deps.len(),
            report@ == dependency_checks(old(report)@, deps@.take(i as int)),
        decreases deps.len() - i,
    {
        assert(deps@.take(i + 1).drop_last() =~= deps@.take(i as int));
        let d = &deps[i];
        if d.from_registry {
            match find_registry_entry(d.name.as_str()) {
                Some(_) => {},
                None => {
                    report.push_warning(
                        "dependencies",
                        concat3("registry package '", d.name.as_str(), "' not in local registry stub"),
                    );
                },
            }
            match parse_version_req(d.version_req.as_str()) {
                Ok(()) => {},
                Err(e) => {
                    let mut m = concat3("invalid version constraint for '", d.name.as_str(), "': ");
                    m.append(e.as_str());
                    report.push_error("dependencies", m);
                },
            }
        }
        i = i + 1;
    }
    assert(deps@.take(deps.len() as int) =~= deps@);
}

/// The warning for a hardware target outside the built-in profiles.
pub open spec fn unknown_target_warning(known: Seq<String>) -> spec_fn(Seq<char>) -> Option<
    (Seq<char>, Seq<char>),
> {
    |t: Seq<char>|
        if has_text(known, t) {
            None
        } else {
            Some(("target"@, "unknown hardware target '"@ + t + "' — not in built-in profiles"@))
        }
}

/// What `validate_hardware_targets` adds to a report, target by target.
pub open spec fn target_checks(
    r: (Seq<(ValidationSeverity, Seq<char>, Seq<char>)>, Seq<Seq<char>>),
    targets: Seq<Seq<char>>,
    known: Seq<String>,
    allowed: Seq<String>,
) -> (Seq<(ValidationSeverity, Seq<char>, Seq<char>)>, Seq<Seq<char>>)
    decreases targets.len(),
{
    if targets.len() == 0 {
        r
    } else {
        let prev = target_checks(r, targets.drop_last(), known, allowed);
        let t = targets.last();
        let r1 = if has_text(known, t) {
            prev
        } else {
            with_warning(prev, "target"@, "unknown hardware target '"@ + t + "' — not in built-in profiles"@)
        };
        if allowed.len() > 0 && !has_text(allowed, t) {
            with_error(r1, "target"@, "target '"@ + t + "' not allowed by application permissions"@)
        } else {
            r1
        }
    }
}

/// Warn about targets outside the built-in hardware profiles, and refuse
/// targets the application does not allow.
pub fn validate_hardware_targets(
    targets: &Vec<String>,
    known_profiles: &Vec<String>,
    app_perms: &ApplicationPermissions,
    report: &mut ValidationReport,
)
    ensures
        final(report)@ == target_checks(old(report)@, texts(targets@), known_profiles@, app_perms.hardware_targets@),
{
    let ghost items = texts(targets@);
    let mut i: usize = 0;
    assert(items.take(0) =~= Seq::<Seq<char>>::empty());
    while i < targets.len()
        invariant
            i <= targets.len(),
            items == texts(targets@),
            report@ == target_checks(old(report)@, items.take(i as int), known_profiles@, app_perms.hardware_targets@),
        decreases targets.len() - i,
    {
        assert(items.take(i + 1).drop_last() =~= items.take(i as int));
        assert(items.take(i + 1).last() == targets@[i as int]@);
        let t = targets[i].as_str();
        if !contains_text(known_profiles, t) {
            report.push_warning("target", concat3("unknown hardware target '", t, "' — not in built-in profiles"));
        }
        if app_perms.hardware_targets.len() > 0 && !contains_text(&app_perms.hardware_targets, t) {
            report.push_error("target", concat3("target '", t, "' not allowed by application permissions"));
        }
        i = i + 1;
    }
    assert(items.take(targets.len() as int) =~= items);
}

/// What validation reads of a package manifest.
#[derive(Debug, Clone)]
pub struct PackageFacts {
    pub version: String,
    pub license: Option<String>,
    pub license_compat: Vec<String>,
    pub capabilities: CapabilityRequirements,
    pub hardware_targets: Vec<String>,
    pub safety: SafetyMetadata,
    pub adapter_requires: Vec<String>,
    pub adapter_provides: Vec<String>,
    pub dependencies: Vec<DependencyDecl>,
    pub hardware_memory: Option<HardwareRequirement>,
    pub hardware_gpu: Option<HardwareRequirement>,
}

/// A hardware requirement's text and whether its minimum could be read.
#[derive(Debug, Clone)]
pub struct HardwareRequirement {
    pub text: String,
    pub parsed: bool,
}

/// The hardware requirements' checks: an unreadable memory minimum is an
/// error; an unreadable GPU minimum is a warning unless it merely says it
/// is required.
pub open spec fn hardware_requirement_checks(
    r: (Seq<(ValidationSeverity, Seq<char>, Seq<char>)>, Seq<Seq<char>>),
    memory: Option<HardwareRequirement>,
    gpu: Option<HardwareRequirement>,
) -> (Seq<(ValidationSeverity, Seq<char>, Seq<char>)>, Seq<Seq<char>>) {
    let r1 = match memory {
        Some(m) => if !m.parsed {
            with_error(r, "hardware"@, "could not parse memory requirement '"@ + m.text@ + "'"@)
        } else {
            r
        },
        None => r,
    };
    match gpu {
        Some(g) => if !g.parsed && !seq_contains(unicode_lower(g.text@), "required"@) {
            with_warning(r1, "hardware"@, "could not parse GPU requirement '"@ + g.text@ + "'"@)
        } else {
            r1
        },
        None => r1,
    }
}

/// Validate the hardware requirements.
pub fn validate_hardware_requirements(
    memory: &Option<HardwareRequirement>,
    gpu: &Option<HardwareRequirement>,
    report: &mut ValidationReport,
)
    ensures
        final(report)@ == hardware_requirement_checks(old(report)@, *memory, *gpu),
{
    match memory {
        Some(m) => {
            if !m.parsed {
                report.push_error("hardware", concat3("could not parse memory requirement '", m.text.as_str(), "'"));
            }
        },
        None => {},
    }
    match gpu {
        Some(g) => {
            if !g.parsed {
                let lower = to_lowercase(g.text.as_str());
                if !str_contains(lower.as_str(), "required") {
                    report.push_warning("hardware", concat3("could not parse GPU requirement '", g.text.as_str(), "'"));
                }
            }
        },
        None => {},
    }
}

/// The warning for a dependency that reuses an official package name
/// without registry provenance.
pub open spec fn provenance_warning() -> spec_fn(Seq<char>) -> Option<(Seq<char>, Seq<char>)> {
    |name: Seq<char>|
        Some(
            (
                "official_provenance"@,
                "dependency '"@ + name
                    + "' reuses an official package name without registry provenance — built-in providers will not wire; use a registry version or path to packages/registry/"@
                    + name,
            ),
        )
}

/// Warn for each dependency that reuses an official package name without
/// registry provenance.
pub fn validate_official_provenance(overrides: &Vec<String>, report: &mut ValidationReport)
    ensures
        final(report)@ == warn_each(old(report)@, texts(overrides@), provenance_warning()),
{
    let ghost items = texts(overrides@);
    let ghost start = report@;
    let mut i: usize = 0;
    assert(items.take(0) =~= Seq::<Seq<char>>::empty());
    while i < overrides.len()
        invariant
            i <= overrides.len(),
            items == texts(overrides@),
            report@ == warn_each(start, items.take(i as int), provenance_warning()),
        decreases overrides.len() - i,
    {
        assert(items.take(i + 1).drop_last() =~= items.take(i as int));
        assert(items.take(i + 1).last() == overrides@[i as int]@);
        let name = overrides[i].as_str();
        let mut msg = concat3("dependency '", name, "' reuses an official package name without registry provenance — built-in providers will not wire; use a registry version or path to packages/registry/");
        msg.append(name);
        report.push_warning("official_provenance", msg);
        i = i + 1;
    }
    assert(items.take(overrides.len() as int) =~= items);
}

/// The report that validating a package gives: every check in turn.
pub open spec fn package_checks(
    f: PackageFacts,
    perms: ApplicationPermissions,
    known_profiles: Seq<String>,
    overrides: Option<Seq<Seq<char>>>,
) -> (Seq<(ValidationSeverity, Seq<char>, Seq<char>)>, Seq<Seq<char>>) {
    let r0 = rv_empty();
    let r1 = if semver_version_parses(f.version@) {
        r0
    } else {
        with_error(r0, "version"@, "invalid semver version '"@ + f.version@ + "'"@)
    };
    let r2a = warn_each(r1, f.capabilities.all_view(), unknown_capability_warning("capabilities"@));
    let r2 = hardware_requirement_checks(r2a, f.hardware_memory, f.hardware_gpu);
    let r3 = target_checks(r2, texts(f.hardware_targets@), known_profiles, perms.hardware_targets@);
    let r4 = safety_checks(r3, f.safety, perms.allowed_safety_levels@);
    let r5 = license_checks(
        r4,
        match f.license { Some(l) => Some(l@), None => None },
        texts(f.license_compat@),
        perms.allowed_licenses@,
    );
    let r6 = adapter_checks(r5, texts(f.adapter_requires@), texts(f.adapter_provides@));
    let r7a = dependency_checks(r6, f.dependencies@);
    let r7 = match overrides {
        Some(o) => warn_each(r7a, o, provenance_warning()),
        None => r7a,
    };
    warn_each(
        warn_each(r7, f.capabilities.all_view(), excess_warning(perms.capabilities@)),
        f.capabilities.all_view(),
        high_risk_warning(),
    )
}

/// The error messages of the issues, joined with `; `.
pub open spec fn joined_errors(issues: Seq<(ValidationSeverity, Seq<char>, Seq<char>)>) -> Seq<char>
    decreases issues.len(),
{
    if issues.len() == 0 {
        Seq::empty()
    } else {
        let prev = joined_errors(issues.drop_last());
        if issues.last().0 is Error {
            if no_errors(issues.drop_last()) {
                issues.last().2
            } else {
                prev + "; "@ + issues.last().2
            }
        } else {
            prev
        }
    }
}

fn join_errors(report: &ValidationReport) -> (r: String)
    ensures
        r@ == joined_errors(report@.0),
{
    let ghost is = report@.0;
    let mut out = String::new();
    let mut any = false;
    let mut i: usize = 0;
    assert(is.take(0) =~= Seq::<(ValidationSeverity, Seq<char>, Seq<char>)>::empty());
    while i < report.issues.len()
        invariant
            i <= report.issues.len(),
            is == report@.0,
            out@ == joined_errors(is.take(i as int)),
            any == !no_errors(is.take(i as int)),
        decreases report.issues.len() - i,
    {
        let ghost t = is.take(i + 1);
        assert(t.drop_last() =~= is.take(i as int));
        assert(t.last() == is[i as int]);
        let issue = &report.issues[i];
        match issue.severity {
            ValidationSeverity::Error => {
                if any {
                    out.append("; ");
                    out.append(issue.message.as_str());
                } else {
                    out = issue.message.clone();
                }
                proof {
                    assert(t[i as int].0 is Error);
                }
                any = true;
            },
            ValidationSeverity::Warning => {
                proof {
                    if !no_errors(t) {
                        let k = choose|k: int| 0 <= k < t.len() && (#[trigger] t[k]).0 is Error;
                        assert(is.take(i as int)[k] == t[k]);
                    }
                }
            },
        }
        proof {
            if any && !no_errors(is.take(i as int)) {
                let k = choose|k: int| 0 <= k < i && (#[trigger] is.take(i as int)[k]).0 is Error;
                assert(t[k] == is.take(i as int)[k]);
            }
        }
        i = i + 1;
    }
    assert(is.take(report.issues.len() as int) =~= is);
    out
}

/// Validate a package: the report of every check when no check found an
/// error, otherwise the error messages joined with `; `. Within a project,
/// `overrides` names the dependencies that reuse an official package name
/// without registry provenance.
pub fn validate_package_in(
    facts: &PackageFacts,
    app_perms: &ApplicationPermissions,
    known_profiles: &Vec<String>,
    overrides: Option<&Vec<String>>,
) -> (r: Result<ValidationReport, PackageError>)
    ensures
        ({
            let o = match overrides {
                Some(v) => Some(texts(v@)),
                None => None,
            };
            match r {
                Ok(rep) => rep@ == package_checks(*facts, *app_perms, known_profiles@, o) && no_errors(rep@.0),
                Err(e) => !no_errors(package_checks(*facts, *app_perms, known_profiles@, o).0) && (e matches PackageError::Validation(m)
                    && m@ == joined_errors(package_checks(*facts, *app_perms, known_profiles@, o).0)),
            }
        }),
{
    let mut report = ValidationReport::new();
    assert(report@ =~= rv_empty());
    validate_version(facts.version.as_str(), &mut report);
    validate_capabilities(&facts.capabilities, &mut report);
    validate_hardware_requirements(&facts.hardware_memory, &facts.hardware_gpu, &mut report);
    validate_hardware_targets(&facts.hardware_targets, known_profiles, app_perms, &mut report);
    validate_safety(&facts.safety, app_perms, &mut report);
    let license = match &facts.license {
        Some(l) => Some(l.as_str()),
        None => None,
    };
    validate_license(license, &facts.license_compat, app_perms, &mut report);
    validate_adapter(&facts.adapter_requires, &facts.adapter_provides, &mut report);
    validate_dependencies(&facts.dependencies, &mut report);
    match overrides {
        Some(o) => validate_official_provenance(o, &mut report),
        None => {},
    }
    check_capability_excess(&facts.capabilities, app_perms, &mut report);
    if report.ok() {
        Ok(report)
    } else {
        Err(PackageError::Validation(join_errors(&report)))
    }
}

/// Validate a package outside any project.
pub fn validate_package(
    facts: &PackageFacts,
    app_perms: &ApplicationPermissions,
    known_profiles: &Vec<String>,
) -> (r: Result<ValidationReport, PackageError>)
    ensures
        match r {
            Ok(rep) => rep@ == package_checks(*facts, *app_perms, known_profiles@, None) && no_errors(rep@.0),
            Err(e) => !no_errors(package_checks(*facts, *app_perms, known_profiles@, None).0) && (e matches PackageError::Validation(m)
                && m@ == joined_errors(package_checks(*facts, *app_perms, known_profiles@, None).0)),
        },
{
    validate_package_in(facts, app_perms, known_profiles, None)
}

} // verus!
