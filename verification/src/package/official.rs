//! Resolve the official framework packages a project depends on.
use vstd::prelude::*;
use crate::text::{has_text, insert_sorted_unique, sorted_strict, str_eq};
use crate::package::registry::{framework_package_views, framework_packages, FrameworkPackage, strs};

verus! {

/// The texts of a list of string slices.
pub open spec fn texts_of(s: Seq<&str>) -> Seq<Seq<char>> {
    s.map_values(|x: &str| x@)
}

/// A name of the official framework catalog.
pub open spec fn is_official_name(name: Seq<char>) -> bool {
    exists|i: int|
        0 <= i < framework_package_views().len() && (#[trigger] framework_package_views()[i]).0
            == name
}

/// Whether a package name is a registered official framework package.
pub fn is_official_package(name: &str) -> (r: bool)
    ensures
        r == is_official_name(name@),
{
    let fw = framework_packages();
    let ghost fv = fw@.map_values(|p: FrameworkPackage| (p.name@, strs(p.import_paths@)));
    let mut i: usize = 0;
    while i < fw.len()
        invariant
            i <= fw.len(),
            fv == fw@.map_values(|p: FrameworkPackage| (p.name@, strs(p.import_paths@))),
            fv == framework_package_views(),
            forall|k: int| 0 <= k < i ==> (#[trigger] fv[k]).0 != name@,
        decreases fw.len() - i,
    {
        if str_eq(fw[i].name, name) {
            assert(fv[i as int].0 == name@);
            return true;
        }
        i = i + 1;
    }
    false
}

/// The official package names among a project's dependency names, sorted
/// and without duplicates.
pub fn installed_official_packages(dependency_names: &[&str]) -> (r: Vec<String>)
    ensures
        sorted_strict(r@),
        forall|t: Seq<char>|
            has_text(r@, t) <==> (is_official_name(t) && texts_of(dependency_names@).contains(t)),
{
    let ghost names = texts_of(dependency_names@);
    let mut out: Vec<String> = Vec::new();
    let mut i: usize = 0;
    while i < dependency_names.len()
        invariant
            i <= dependency_names.len(),
            names == texts_of(dependency_names@),
            sorted_strict(out@),
            forall|t: Seq<char>|
                has_text(out@, t) <==> (is_official_name(t) && names.subrange(0, i as int).contains(t)),
        decreases dependency_names.len() - i,
    {
        let d = dependency_names[i];
        let ghost a = names.subrange(0, i as int);
        let ghost b = names.subrange(0, i + 1);
        assert(b =~= a.push(d@));
        if is_official_package(d) {
            let ghost before = out@;
            let x: String = d.to_owned();
            assert(x@ == d@);
            insert_sorted_unique(&mut out, x);
            proof {
                assert forall|t: Seq<char>|
                    #[trigger] has_text(out@, t) <==> (is_official_name(t) && b.contains(t)) by {
                    assert(has_text(out@, t) <==> (has_text(before, t) || t == d@));
                    assert(has_text(before, t) <==> (is_official_name(t) && a.contains(t)));
                    if a.contains(t) {
                        let k = choose|k: int| 0 <= k < a.len() && a[k] == t;
                        assert(b[k] == t);
                    }
                    if t == d@ {
                        assert(b[i as int] == t);
                    }
                    if b.contains(t) && t != d@ {
                        let k = choose|k: int| 0 <= k < b.len() && b[k] == t;
                        assert(a[k] == t);
                    }
                }
            }
        } else {
            proof {
                assert forall|t: Seq<char>|
                    #[trigger] has_text(out@, t) <==> (is_official_name(t) && b.contains(t)) by {
                    assert(has_text(out@, t) <==> (is_official_name(t) && a.contains(t)));
                    if a.contains(t) {
                        let k = choose|k: int| 0 <= k < a.len() && a[k] == t;
                        assert(b[k] == t);
                    }
                    if b.contains(t) && t != d@ {
                        let k = choose|k: int| 0 <= k < b.len() && b[k] == t;
                        assert(a[k] == t);
                    }
                }
            }
        }
        i = i + 1;
    }
    assert(names.subrange(0, dependency_names.len() as int) =~= names);
    out
}

fn official_among(dependency_names: &Vec<String>) -> (r: Vec<String>)
    ensures
        sorted_strict(r@),
        forall|t: Seq<char>|
            has_text(r@, t) <==> (is_official_name(t) && has_text(dependency_names@, t)),
{
    let mut names: Vec<&str> = Vec::new();
    let mut i: usize = 0;
    while i < dependency_names.len()
        invariant
            i <= dependency_names.len(),
            names@.len() == i,
            forall|k: int| 0 <= k < i ==> (#[trigger] names@[k])@ == dependency_names@[k]@,
        decreases dependency_names.len() - i,
    {
        names.push(dependency_names[i].as_str());
        i = i + 1;
    }
    let sl = names.as_slice();
    assert(sl@ == names@);
    let r = installed_official_packages(sl);
    proof {
        let ns = texts_of(names@);
        assert forall|t: Seq<char>| ns.contains(t) <==> has_text(dependency_names@, t) by {
            if ns.contains(t) {
                let k = choose|k: int| 0 <= k < ns.len() && ns[k] == t;
                assert(dependency_names@[k]@ == t);
            }
            if has_text(dependency_names@, t) {
                let k = choose|k: int| 0 <= k < dependency_names@.len() && #[trigger] dependency_names@[k]@ == t;
                assert(ns[k] == names@[k]@);
                assert(ns[k] == t);
            }
        }
        assert forall|t: Seq<char>| #[trigger] has_text(r@, t) <==> (is_official_name(t) && has_text(dependency_names@, t)) by {
            assert(has_text(r@, t) <==> (is_official_name(t) && ns.contains(t)));
        }
    }
    r
}

/// The official packages a manifest's `[dependencies]` names, sorted and
/// without duplicates.
pub fn official_packages_from_manifest(dependency_names: &Vec<String>) -> (r: Vec<String>)
    ensures
        sorted_strict(r@),
        forall|t: Seq<char>|
            has_text(r@, t) <==> (is_official_name(t) && has_text(dependency_names@, t)),
{
    official_among(dependency_names)
}

/// The official packages a lockfile resolves, sorted and without duplicates.
pub fn official_packages_from_lockfile(dependency_names: &Vec<String>) -> (r: Vec<String>)
    ensures
        sorted_strict(r@),
        forall|t: Seq<char>|
            has_text(r@, t) <==> (is_official_name(t) && has_text(dependency_names@, t)),
{
    official_among(dependency_names)
}

/// Official packages of a project: from its lockfile when it has one,
/// otherwise from its manifest; none when it has neither.
pub fn official_packages_for_project(
    lockfile_dependencies: Option<&Vec<String>>,
    manifest_dependencies: Option<&Vec<String>>,
) -> (r: Option<Vec<String>>)
    ensures
        r is Some <==> (lockfile_dependencies is Some || manifest_dependencies is Some),
        r matches Some(v) ==> sorted_strict(v@) && forall|t: Seq<char>|
            has_text(v@, t) <==> (is_official_name(t) && match lockfile_dependencies {
                Some(l) => has_text(l@, t),
                None => has_text(manifest_dependencies.unwrap()@, t),
            }),
{
    match lockfile_dependencies {
        Some(l) => Some(official_packages_from_lockfile(l)),
        None => match manifest_dependencies {
            Some(m) => Some(official_packages_from_manifest(m)),
            None => None,
        },
    }
}

} // verus!
