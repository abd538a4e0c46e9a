//! The local package registry and the official framework catalog.
use vstd::prelude::*;
use crate::text::{all_ascii, ascii_lower, lower_char, seq_contains, str_contains, str_eq, to_lowercase, unicode_lower, sorted_strict,
    has_text, insert_sorted_unique};

verus! {

/// Category a registry package belongs to.
#[derive(Debug, Clone, Copy, PartialEq, Eq, Structural, Hash)]
pub enum PackageCategory {
    Ros2,
    Vision,
    Navigation,
    Mqtt,
    Sensors,
    Ai,
    Audit,
}

impl PackageCategory {
    pub open spec fn spec_as_str(self) -> Seq<char> {
        match self {
            PackageCategory::Ros2 => "ros2"@,
            PackageCategory::Vision => "vision"@,
            PackageCategory::Navigation => "navigation"@,
            PackageCategory::Mqtt => "mqtt"@,
            PackageCategory::Sensors => "sensors"@,
            PackageCategory::Ai => "ai"@,
            PackageCategory::Audit => "audit"@,
        }
    }

    /// The category's name.
    pub fn as_str(&self) -> (r: &'static str)
        ensures
            r@ == self.spec_as_str(),
    {
        match self {
            PackageCategory::Ros2 => "ros2",
            PackageCategory::Vision => "vision",
            PackageCategory::Navigation => "navigation",
            PackageCategory::Mqtt => "mqtt",
            PackageCategory::Sensors => "sensors",
            PackageCategory::Ai => "ai",
            PackageCategory::Audit => "audit",
        }
    }
}

/// Registry entry for local resolution.
#[derive(Debug, Clone, PartialEq, Eq)]
pub struct RegistryEntry {
    pub name: &'static str,
    pub description: &'static str,
    pub versions: Vec<&'static str>,
    pub category: PackageCategory,
    pub license: &'static str,
    pub import_paths: Vec<&'static str>,
}

/// The texts of a list of static strings.
pub open spec fn strs(s: Seq<&'static str>) -> Seq<Seq<char>> {
    s.map_values(|x: &'static str| x@)
}

impl View for RegistryEntry {
    type V = (Seq<char>, Seq<char>, Seq<Seq<char>>, PackageCategory, Seq<char>, Seq<Seq<char>>);

    open spec fn view(&self) -> Self::V {
        (
            self.name@,
            self.description@,
            strs(self.versions@),
            self.category,
            self.license@,
            strs(self.import_paths@),
        )
    }
}

/// The views of a list of entries.
pub open spec fn entry_views(s: Seq<RegistryEntry>) -> Seq<
    (Seq<char>, Seq<char>, Seq<Seq<char>>, PackageCategory, Seq<char>, Seq<Seq<char>>),
> {
    s.map_values(|e: RegistryEntry| e@)
}

/// The packages of the local registry.
pub open spec fn local_registry_views() -> Seq<
    (Seq<char>, Seq<char>, Seq<Seq<char>>, PackageCategory, Seq<char>, Seq<Seq<char>>),
> {
    seq![
        (
            "spanda-ros2"@,
            "ROS 2 integration framework"@,
            seq!["0.1.0"@, "0.2.0"@],
            PackageCategory::Ros2,
            "Apache-2.0"@,
            seq!["robotics.ros2"@],
        ),
        (
            "spanda-vision"@,
            "Computer vision utilities"@,
            seq!["0.1.0"@],
            PackageCategory::Vision,
            "Apache-2.0"@,
            seq!["vision.core"@],
        ),
        (
            "spanda-navigation"@,
            "Path planning and navigation"@,
            seq!["0.1.0"@],
            PackageCategory::Navigation,
            "Apache-2.0"@,
            seq!["navigation.path_planning"@],
        ),
        (
            "spanda-mqtt"@,
            "MQTT pub/sub transport"@,
            seq!["0.1.0"@],
            PackageCategory::Mqtt,
            "Apache-2.0"@,
            seq!["communication.mqtt"@],
        ),
        (
            "spanda-lidar-rplidar"@,
            "RPLidar driver adapter"@,
            seq!["0.1.0"@],
            PackageCategory::Sensors,
            "MIT"@,
            seq!["sensors.lidar.rplidar"@],
        ),
        (
            "spanda-openai"@,
            "OpenAI provider adapter"@,
            seq!["0.1.0"@],
            PackageCategory::Ai,
            "Apache-2.0"@,
            seq!["ai.openai"@],
        ),
        (
            "spanda-ledger"@,
            "Tamper-evident ledger anchoring for audit trails"@,
            seq!["0.1.0"@],
            PackageCategory::Audit,
            "Apache-2.0"@,
            seq!["ledger.core"@, "ledger.mock"@],
        ),
        (
            "spanda-provenance"@,
            "Data and model provenance records"@,
            seq!["0.1.0"@],
            PackageCategory::Audit,
            "Apache-2.0"@,
            seq!["provenance.core"@],
        ),
    ]
}

fn entry(
    name: &'static str,
    description: &'static str,
    versions: Vec<&'static str>,
    category: PackageCategory,
    license: &'static str,
    import_paths: Vec<&'static str>,
) -> (r: RegistryEntry)
    ensures
        r@ == (name@, description@, strs(versions@), category, license@, strs(import_paths@)),
{
    RegistryEntry { name, description, versions, category, license, import_paths }
}

/// The packages of the local registry, available for dependency resolution.
pub fn local_registry() -> (r: Vec<RegistryEntry>)
    ensures
        entry_views(r@) == local_registry_views(),
{
    let mut r: Vec<RegistryEntry> = Vec::new();
    r.push(entry(
        "spanda-ros2",
        "ROS 2 integration framework",
        vec!["0.1.0", "0.2.0"],
        PackageCategory::Ros2,
        "Apache-2.0",
        vec!["robotics.ros2"],
    ));
    r.push(entry(
        "spanda-vision",
        "Computer vision utilities",
        vec!["0.1.0"],
        PackageCategory::Vision,
        "Apache-2.0",
        vec!["vision.core"],
    ));
    r.push(entry(
        "spanda-navigation",
        "Path planning and navigation",
        vec!["0.1.0"],
        PackageCategory::Navigation,
        "Apache-2.0",
        vec!["navigation.path_planning"],
    ));
    r.push(entry(
        "spanda-mqtt",
        "MQTT pub/sub transport",
        vec!["0.1.0"],
        PackageCategory::Mqtt,
        "Apache-2.0",
        vec!["communication.mqtt"],
    ));
    r.push(entry(
        "spanda-lidar-rplidar",
        "RPLidar driver adapter",
        vec!["0.1.0"],
        PackageCategory::Sensors,
        "MIT",
        vec!["sensors.lidar.rplidar"],
    ));
    r.push(entry(
        "spanda-openai",
        "OpenAI provider adapter",
        vec!["0.1.0"],
        PackageCategory::Ai,
        "Apache-2.0",
        vec!["ai.openai"],
    ));
    r.push(entry(
        "spanda-ledger",
        "Tamper-evident ledger anchoring for audit trails",
        vec!["0.1.0"],
        PackageCategory::Audit,
        "Apache-2.0",
        vec!["ledger.core", "ledger.mock"],
    ));
    r.push(entry(
        "spanda-provenance",
        "Data and model provenance records",
        vec!["0.1.0"],
        PackageCategory::Audit,
        "Apache-2.0",
        vec!["provenance.core"],
    ));
    assert(entry_views(r@) =~~= local_registry_views());
    r
}

/// An official framework package and the import paths it provides.
#[derive(Debug, Clone, PartialEq, Eq)]
pub struct FrameworkPackage {
    pub name: &'static str,
    pub import_paths: Vec<&'static str>,
}

/// The official framework catalog: package names and import paths.
pub open spec fn framework_package_views() -> Seq<(Seq<char>, Seq<Seq<char>>)> {
    seq![
        ("spanda-ros2"@, seq!["robotics.ros2"@]),
        ("spanda-mqtt"@, seq!["communication.mqtt"@]),
        ("spanda-gps"@, seq!["sensors.gps"@]),
        ("spanda-vision"@, seq!["vision.core"@]),
        ("spanda-fleet"@, seq!["fleet.core"@]),
        ("spanda-ota"@, seq!["ota.core"@]),
        ("spanda-cloud"@, seq!["cloud.core"@]),
        ("spanda-ledger"@, seq!["ledger.core"@, "ledger.mock"@]),
        ("spanda-provenance"@, seq!["provenance.core"@]),
        ("spanda-identity"@, seq!["identity.core"@]),
    ]
}

/// The official framework packages.
pub fn framework_packages() -> (r: Vec<FrameworkPackage>)
    ensures
        r@.map_values(|p: FrameworkPackage| (p.name@, strs(p.import_paths@))) == framework_package_views(),
{
    let mut r: Vec<FrameworkPackage> = Vec::new();
    r.push(FrameworkPackage { name: "spanda-ros2", import_paths: vec!["robotics.ros2"] });
    r.push(FrameworkPackage { name: "spanda-mqtt", import_paths: vec!["communication.mqtt"] });
    r.push(FrameworkPackage { name: "spanda-gps", import_paths: vec!["sensors.gps"] });
    r.push(FrameworkPackage { name: "spanda-vision", import_paths: vec!["vision.core"] });
    r.push(FrameworkPackage { name: "spanda-fleet", import_paths: vec!["fleet.core"] });
    r.push(FrameworkPackage { name: "spanda-ota", import_paths: vec!["ota.core"] });
    r.push(FrameworkPackage { name: "spanda-cloud", import_paths: vec!["cloud.core"] });
    r.push(FrameworkPackage { name: "spanda-ledger", import_paths: vec!["ledger.core", "ledger.mock"] });
    r.push(FrameworkPackage { name: "spanda-provenance", import_paths: vec!["provenance.core"] });
    r.push(FrameworkPackage { name: "spanda-identity", import_paths: vec!["identity.core"] });
    assert(r@.map_values(|p: FrameworkPackage| (p.name@, strs(p.import_paths@))) =~~= framework_package_views());
    r
}

fn copy_strs(v: &Vec<&'static str>) -> (r: Vec<&'static str>)
    ensures
        r@ == v@,
{
    let mut r: Vec<&'static str> = Vec::new();
    let mut i: usize = 0;
    while i < v.len()
        invariant
            i <= v.len(),
            r@ == v@.subrange(0, i as int),
        decreases v.len() - i,
    {
        r.push(v[i]);
        assert(r@ =~= v@.subrange(0, i + 1));
        i = i + 1;
    }
    assert(v@.subrange(0, v.len() as int) =~= v@);
    r
}

impl RegistryEntry {
    /// A copy of the entry.
    pub fn duplicate(&self) -> (r: RegistryEntry)
        ensures
            r@ == self@,
    {
        RegistryEntry {
            name: self.name,
            description: self.description,
            versions: copy_strs(&self.versions),
            category: self.category,
            license: self.license,
            import_paths: copy_strs(&self.import_paths),
        }
    }
}

/// An entry answers a (lowercased) query when the query occurs in its name,
/// in the lowercase of its description, or in its category's name.
pub open spec fn entry_matches(
    e: (Seq<char>, Seq<char>, Seq<Seq<char>>, PackageCategory, Seq<char>, Seq<Seq<char>>),
    q: Seq<char>,
) -> bool {
    seq_contains(e.0, q) || seq_contains(unicode_lower(e.1), q) || seq_contains(e.3.spec_as_str(), q)
}

/// The entries of `s` that answer a query, in their order.
pub open spec fn matching_entries(
    s: Seq<(Seq<char>, Seq<char>, Seq<Seq<char>>, PackageCategory, Seq<char>, Seq<Seq<char>>)>,
    q: Seq<char>,
) -> Seq<(Seq<char>, Seq<char>, Seq<Seq<char>>, PackageCategory, Seq<char>, Seq<Seq<char>>)>
    decreases s.len(),
{
    if s.len() == 0 {
        Seq::empty()
    } else {
        let rest = matching_entries(s.drop_last(), q);
        if entry_matches(s.last(), q) {
            rest.push(s.last())
        } else {
            rest
        }
    }
}

/// The entries of the local registry that answer an already lowercased
/// query: those whose name, lowercased description or category contains
/// it, in registry order.
pub fn search_registry_lowered(q: &str) -> (r: Vec<RegistryEntry>)
    ensures
        entry_views(r@) == matching_entries(local_registry_views(), q@),
{
    let reg = local_registry();
    let ghost vs = entry_views(reg@);
    let mut out: Vec<RegistryEntry> = Vec::new();
    let mut i: usize = 0;
    while i < reg.len()
        invariant
            i <= reg.len(),
            vs == entry_views(reg@),
            vs == local_registry_views(),
            entry_views(out@) == matching_entries(vs.subrange(0, i as int), q@),
        decreases reg.len() - i,
    {
        let e = &reg[i];
        assert(vs.subrange(0, i + 1).drop_last() =~= vs.subrange(0, i as int));
        assert(vs.subrange(0, i + 1).last() == e@);
        let d = to_lowercase(e.description);
        if str_contains(e.name, q) || str_contains(d.as_str(), q) || str_contains(e.category.as_str(), q) {
            let ghost before = out@;
            out.push(e.duplicate());
            assert(entry_views(out@) =~= entry_views(before).push(e@));
        }
        i = i + 1;
    }
    assert(vs.subrange(0, reg.len() as int) =~= vs);
    out
}

/// Search the local registry: the entries whose name, lowercased
/// description or category contains the lowercased query. An ASCII query
/// is lowercased ASCII-wise, so its case does not matter.
pub fn search_registry(query: &str) -> (r: Vec<RegistryEntry>)
    ensures
        entry_views(r@) == matching_entries(local_registry_views(), unicode_lower(query@)),
        all_ascii(query@) ==> entry_views(r@) == matching_entries(local_registry_views(), ascii_lower(query@)),
{
    let q = to_lowercase(query);
    search_registry_lowered(q.as_str())
}

/// An ASCII query is searched as its ASCII lowercase, and that lowercase is
/// itself ASCII and lowercases to itself: a query and its lowercase find the
/// same entries.
pub proof fn law_search_ignores_ascii_case(q: Seq<char>)
    requires
        all_ascii(q),
    ensures
        all_ascii(ascii_lower(q)),
        ascii_lower(ascii_lower(q)) == ascii_lower(q),
        matching_entries(local_registry_views(), ascii_lower(ascii_lower(q))) == matching_entries(
            local_registry_views(),
            ascii_lower(q),
        ),
{
    let l = ascii_lower(q);
    assert forall|i: int| 0 <= i < l.len() implies (#[trigger] l[i] as u32) < 128 by {
        assert(l[i] == lower_char(q[i]));
    }
    assert forall|i: int| 0 <= i < l.len() implies #[trigger] ascii_lower(l)[i] == l[i] by {
        assert(l[i] == lower_char(q[i]));
    }
    assert(ascii_lower(l) =~= l);
}

/// Find a registry entry by exact name: the first with that name.
pub fn find_registry_entry(name: &str) -> (r: Option<RegistryEntry>)
    ensures
        match r {
            Some(e) => exists|i: int|
                0 <= i < local_registry_views().len() && local_registry_views()[i] == e@ && e.name@
                    == name@ && forall|j: int|
                    0 <= j < i ==> (#[trigger] local_registry_views()[j]).0 != name@,
            None => forall|i: int|
                0 <= i < local_registry_views().len() ==> (#[trigger] local_registry_views()[i]).0
                    != name@,
        },
{
    let reg = local_registry();
    let ghost vs = entry_views(reg@);
    let mut i: usize = 0;
    while i < reg.len()
        invariant
            i <= reg.len(),
            vs == entry_views(reg@),
            vs == local_registry_views(),
            forall|j: int| 0 <= j < i ==> (#[trigger] vs[j]).0 != name@,
        decreases reg.len() - i,
    {
        if str_eq(reg[i].name, name) {
            assert(vs[i as int] == reg@[i as int]@);
            return Some(reg[i].duplicate());
        }
        i = i + 1;
    }
    None
}

/// An import path that some registry or official framework package provides.
pub open spec fn is_import_path(t: Seq<char>) -> bool {
    (exists|i: int|
        0 <= i < local_registry_views().len() && (#[trigger] local_registry_views()[i]).5.contains(t))
        || (exists|i: int|
        0 <= i < framework_package_views().len() && (#[trigger] framework_package_views()[i]).1.contains(
            t,
        ))
}

fn add_paths(out: &mut Vec<String>, paths: &Vec<&'static str>)
    requires
        sorted_strict(old(out)@),
    ensures
        sorted_strict(final(out)@),
        forall|t: Seq<char>|
            has_text(final(out)@, t) <==> (has_text(old(out)@, t) || strs(paths@).contains(t)),
{
    let mut i: usize = 0;
    while i < paths.len()
        invariant
            i <= paths.len(),
            sorted_strict(out@),
            forall|t: Seq<char>|
                has_text(out@, t) <==> (has_text(old(out)@, t) || strs(paths@).subrange(
                    0,
                    i as int,
                ).contains(t)),
        decreases paths.len() - i,
    {
        let ghost before = out@;
        let x: String = paths[i].to_owned();
        assert(x@ == strs(paths@)[i as int]);
        insert_sorted_unique(out, x);
        proof {
            assert forall|t: Seq<char>|
                has_text(out@, t) <==> (has_text(old(out)@, t) || strs(paths@).subrange(
                    0,
                    i + 1,
                ).contains(t)) by {
                let a = strs(paths@).subrange(0, i as int);
                let b = strs(paths@).subrange(0, i + 1);
                assert(b =~= a.push(x@));
                assert(has_text(out@, t) <==> (has_text(before, t) || t == x@));
                assert(has_text(before, t) <==> (has_text(old(out)@, t) || a.contains(t)));
                if a.contains(t) {
                    let k = choose|k: int| 0 <= k < a.len() && a[k] == t;
                    assert(b[k] == t);
                }
                if t == x@ {
                    assert(b[i as int] == t);
                }
                if b.contains(t) {
                    let k = choose|k: int| 0 <= k < b.len() && b[k] == t;
                    if k < i {
                        assert(a[k] == t);
                    }
                }
            }
        }
        i = i + 1;
    }
    assert(strs(paths@).subrange(0, paths.len() as int) =~= strs(paths@));
}

/// Every import path of the registry and the official catalog, sorted and
/// without duplicates.
pub fn all_import_paths() -> (r: Vec<String>)
    ensures
        sorted_strict(r@),
        forall|t: Seq<char>| has_text(r@, t) <==> is_import_path(t),
{
    let reg = local_registry();
    let fw = framework_packages();
    let ghost rv = entry_views(reg@);
    let ghost fv = fw@.map_values(|p: FrameworkPackage| (p.name@, strs(p.import_paths@)));
    let mut out: Vec<String> = Vec::new();
    let mut i: usize = 0;
    while i < reg.len()
        invariant
            i <= reg.len(),
            rv == entry_views(reg@),
            rv == local_registry_views(),
            sorted_strict(out@),
            forall|t: Seq<char>|
                has_text(out@, t) <==> exists|k: int| 0 <= k < i && (#[trigger] rv[k]).5.contains(t),
        decreases reg.len() - i,
    {
        let ghost before = out@;
        add_paths(&mut out, &reg[i].import_paths);
        proof {
            assert(rv[i as int].5 == strs(reg@[i as int].import_paths@));
            assert forall|t: Seq<char>|
                has_text(out@, t) <==> exists|k: int| 0 <= k < i + 1 && (#[trigger] rv[k]).5.contains(t) by {
                if has_text(before, t) {
                    let k = choose|k: int| 0 <= k < i && (#[trigger] rv[k]).5.contains(t);
                }
            }
        }
        i = i + 1;
    }
    let mut j: usize = 0;
    while j < fw.len()
        invariant
            j <= fw.len(),
            rv == local_registry_views(),
            fv == fw@.map_values(|p: FrameworkPackage| (p.name@, strs(p.import_paths@))),
            fv == framework_package_views(),
            sorted_strict(out@),
            forall|t: Seq<char>|
                has_text(out@, t) <==> ((exists|k: int| 0 <= k < rv.len() && (#[trigger] rv[k]).5.contains(t))
                    || exists|k: int| 0 <= k < j && (#[trigger] fv[k]).1.contains(t)),
        decreases fw.len() - j,
    {
        let ghost before = out@;
        add_paths(&mut out, &fw[j].import_paths);
        proof {
            assert(fv[j as int].1 == strs(fw@[j as int].import_paths@));
            assert forall|t: Seq<char>|
                has_text(out@, t) <==> ((exists|k: int| 0 <= k < rv.len() && (#[trigger] rv[k]).5.contains(t))
                    || exists|k: int| 0 <= k < j + 1 && (#[trigger] fv[k]).1.contains(t)) by {
                if exists|k: int| 0 <= k < j && (#[trigger] fv[k]).1.contains(t) {
                    let k = choose|k: int| 0 <= k < j && (#[trigger] fv[k]).1.contains(t);
                }
            }
        }
        j = j + 1;
    }
    out
}

/// Whether an import path resolves to a registry or official package.
pub fn resolve_package_import(path: &str) -> (r: bool)
    ensures
        r == is_import_path(path@),
{
    let all = all_import_paths();
    let mut i: usize = 0;
    while i < all.len()
        invariant
            i <= all.len(),
            forall|t: Seq<char>| has_text(all@, t) <==> is_import_path(t),
            forall|k: int| 0 <= k < i ==> (#[trigger] all@[k])@ != path@,
        decreases all.len() - i,
    {
        if str_eq(all[i].as_str(), path) {
            assert(has_text(all@, path@));
            return true;
        }
        i = i + 1;
    }
    false
}

} // verus!
