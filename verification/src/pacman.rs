//! Data describing the local package inventory, and the selection of
//! packages to reconcile.
//!
//! Enumerating installed packages and comparing version strings are the
//! work of external collaborators (the local package tool and its version
//! comparator); this module holds only the data they hand over and the
//! pure selection logic applied to it.

use vstd::prelude::*;

use crate::version_map::VersionMap;

verus! {

/// Represents a package currently installed on the system.
#[derive(Debug, PartialEq, Eq)]
pub struct InstalledPackage {
    pub name: String,
    pub version: String,
    /// The repository that supplied the package; `"local"` marks a
    /// manually built package with no upstream source.
    pub repository: Option<String>,
}

impl Clone for InstalledPackage {
    fn clone(&self) -> (r: Self)
        ensures
            r == *self,
    {
        InstalledPackage {
            name: self.name.clone(),
            version: self.version.clone(),
            repository: match &self.repository {
                Some(s) => Some(s.clone()),
                None => None,
            },
        }
    }
}

/// Whether the package was built locally, with no upstream source.
pub open spec fn is_local_pkg(pkg: InstalledPackage) -> bool {
    match pkg.repository {
        Some(r) => r@ == "local"@,
        None => false,
    }
}

/// Test whether the package's recorded repository reads `"local"`.
pub fn is_local_repository(pkg: &InstalledPackage) -> (r: bool)
    ensures
        r == is_local_pkg(*pkg),
{
    match &pkg.repository {
        Some(s) => {
            let local: String = "local".to_owned();
            s.eq(&local)
        },
        None => false,
    }
}

/// Whether a package is worth a repository query: it came from some
/// repository and not a local build.
pub open spec fn repo_eligible(p: InstalledPackage) -> bool {
    p.repository is Some && !is_local_pkg(p)
}

/// The names to submit to the repository query: every selected package
/// that records an upstream repository, in order.
pub fn repo_query_candidates(packages: &Vec<InstalledPackage>) -> (r: Vec<String>)
    ensures
        r@ == packages@.filter(|p: InstalledPackage| repo_eligible(p)).map_values(
            |p: InstalledPackage| p.name,
        ),
{
    let mut r: Vec<String> = Vec::new();
    let mut i: usize = 0;
    while i < packages.len()
        invariant
            i <= packages@.len(),
            r@ == packages@.take(i as int).filter(|p: InstalledPackage| repo_eligible(p)).map_values(
                |p: InstalledPackage| p.name,
            ),
        decreases packages@.len() - i,
    {
        proof {
            reveal_with_fuel(Seq::filter, 2);
            assert(packages@.take(i + 1).drop_last() == packages@.take(i as int));
        }
        let eligible = match &packages[i].repository {
            Some(_) => !is_local_repository(&packages[i]),
            None => false,
        };
        if eligible {
            let ghost before = packages@.take(i as int).filter(
                |p: InstalledPackage| repo_eligible(p),
            );
            r.push(packages[i].name.clone());
            proof {
                assert(r@ =~= before.push(packages@[i as int]).map_values(
                    |p: InstalledPackage| p.name,
                ));
            }
        }
        i += 1;
    }
    proof {
        assert(packages@.take(packages@.len() as int) == packages@);
    }
    r
}

/// The names to ask the AUR for: every selected package that the
/// repository query returned no record for, in order.
pub fn aur_query_candidates(packages: &Vec<InstalledPackage>, repo_versions: &VersionMap) -> (r:
    Vec<String>)
    ensures
        r@ == packages@.filter(
            |p: InstalledPackage| !repo_versions@.contains_key(p.name@),
        ).map_values(|p: InstalledPackage| p.name),
{
    let mut r: Vec<String> = Vec::new();
    let mut i: usize = 0;
    while i < packages.len()
        invariant
            i <= packages@.len(),
            r@ == packages@.take(i as int).filter(
                |p: InstalledPackage| !repo_versions@.contains_key(p.name@),
            ).map_values(|p: InstalledPackage| p.name),
        decreases packages@.len() - i,
    {
        proof {
            reveal_with_fuel(Seq::filter, 2);
            assert(packages@.take(i + 1).drop_last() == packages@.take(i as int));
        }
        if !repo_versions.contains(&packages[i].name) {
            let ghost before = packages@.take(i as int).filter(
                |p: InstalledPackage| !repo_versions@.contains_key(p.name@),
            );
            r.push(packages[i].name.clone());
            proof {
                assert(r@ =~= before.push(packages@[i as int]).map_values(
                    |p: InstalledPackage| p.name,
                ));
            }
        }
        i += 1;
    }
    proof {
        assert(packages@.take(packages@.len() as int) == packages@);
    }
    r
}

/// Copy an inventory element by element.
fn clone_packages(v: &Vec<InstalledPackage>) -> (r: Vec<InstalledPackage>)
    ensures
        r@ == v@,
{
    let mut r: Vec<InstalledPackage> = Vec::new();
    let mut i: usize = 0;
    while i < v.len()
        invariant
            i <= v.len(),
            r@ == v@.take(i as int),
        decreases v.len() - i,
    {
        r.push(v[i].clone());
        proof {
            assert(r@ =~= v@.take(i + 1));
        }
        i += 1;
    }
    proof {
        assert(v@.take(v@.len() as int) == v@);
    }
    r
}

/// The views of the package names in `v`, in order.
pub open spec fn package_names(v: Seq<InstalledPackage>) -> Seq<Seq<char>> {
    v.map_values(|p: InstalledPackage| p.name@)
}

/// The views of the strings in `v`, in order.
pub open spec fn name_views(v: Seq<String>) -> Seq<Seq<char>> {
    v.map_values(|s: String| s@)
}

/// True when some string in `v` reads `s`.
pub fn contains_name(v: &Vec<String>, s: &String) -> (r: bool)
    ensures
        r == name_views(v@).contains(s@),
{
    let mut i: usize = 0;
    while i < v.len()
        invariant
            i <= v.len(),
            forall|j: int| 0 <= j < i ==> name_views(v@)[j] != s@,
        decreases v.len() - i,
    {
        if v[i].eq(s) {
            assert(name_views(v@)[i as int] == s@);
            return true;
        }
        i += 1;
    }
    false
}

/// True when some installed package in `v` is named `s`.
pub fn contains_package_named(v: &Vec<InstalledPackage>, s: &String) -> (r: bool)
    ensures
        r == package_names(v@).contains(s@),
{
    let mut i: usize = 0;
    while i < v.len()
        invariant
            i <= v.len(),
            forall|j: int| 0 <= j < i ==> package_names(v@)[j] != s@,
        decreases v.len() - i,
    {
        if v[i].name.eq(s) {
            assert(package_names(v@)[i as int] == s@);
            return true;
        }
        i += 1;
    }
    false
}

/// Restrict the installed inventory to the requested package names.
///
/// With no explicit request, the whole inventory is selected. Otherwise
/// `selected` keeps, in inventory order, exactly the packages whose name
/// occurs among the requested names, and `missing` keeps, in request
/// order, exactly the requested names that match no installed package.
/// The inventory itself is left as the caller sorted it; selection
/// preserves its order.
pub fn filter_packages(installed: &Vec<InstalledPackage>, requested: &Vec<String>) -> (r: (
    Vec<InstalledPackage>,
    Vec<String>,
))
    ensures
        requested@.len() == 0 ==> r.0@ == installed@ && r.1@.len() == 0,
        requested@.len() > 0 ==> r.0@ == installed@.filter(
            |p: InstalledPackage| name_views(requested@).contains(p.name@),
        ),
        requested@.len() > 0 ==> r.1@ == requested@.filter(
            |s: String| !package_names(installed@).contains(s@),
        ),
{
    if requested.len() == 0 {
        return (clone_packages(installed), Vec::new());
    }

    let mut selected: Vec<InstalledPackage> = Vec::new();
    let mut i: usize = 0;
    while i < installed.len()
        invariant
            i <= installed.len(),
            selected@ == installed@.take(i as int).filter(
                |p: InstalledPackage| name_views(requested@).contains(p.name@),
            ),
        decreases installed.len() - i,
    {
        proof {
            reveal_with_fuel(Seq::filter, 2);
            assert(installed@.take(i + 1).drop_last() == installed@.take(i as int));
        }
        if contains_name(requested, &installed[i].name) {
            selected.push(installed[i].clone());
        }
        i += 1;
    }

    let mut missing: Vec<String> = Vec::new();
    let mut j: usize = 0;
    while j < requested.len()
        invariant
            j <= requested.len(),
            missing@ == requested@.take(j as int).filter(
                |s: String| !package_names(installed@).contains(s@),
            ),
        decreases requested.len() - j,
    {
        proof {
            reveal_with_fuel(Seq::filter, 2);
            assert(requested@.take(j + 1).drop_last() == requested@.take(j as int));
        }
        if !contains_package_named(installed, &requested[j]) {
            missing.push(requested[j].clone());
        }
        j += 1;
    }

    proof {
        assert(installed@.take(installed@.len() as int) == installed@);
        assert(requested@.take(requested@.len() as int) == requested@);
    }
    (selected, missing)
}

} // verus!
