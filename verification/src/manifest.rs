//! The reconciliation engine: merge each installed package's version
//! with up to two candidate records and decide the authoritative
//! source, target version, and update flag; then aggregate the verdicts
//! and run-level counters into the manifest document.
//!
//! Version ordering is the business of an external comparator; every
//! function here takes its verdicts as inputs and is a pure function of
//! them.

use core::cmp::Ordering;
use vstd::pervasive::unreached;
use vstd::prelude::*;

use crate::aur::sat_add;
use crate::package_info::VersionInfo;
use crate::pacman::{is_local_pkg, is_local_repository, InstalledPackage};
use crate::version_map::VersionMap;

verus! {

/// Source classification for an update candidate.
#[derive(Debug, Clone, Copy, PartialEq, Eq, Structural)]
pub enum PackageSource {
    /// The official repositories.
    Pacman,
    /// The AUR.
    Aur,
    /// Built locally; no upstream source exists.
    Local,
    /// No source had a record and the package is not locally sourced.
    Unknown,
}

/// The one policy annotation an entry can carry.
#[derive(Debug, Clone, Copy, PartialEq, Eq, Structural)]
pub enum ManifestNote {
    /// Both sources answered, the repository was chosen, and the AUR
    /// version is strictly ahead of the installed one.
    AurAheadRepoChosen,
}

impl ManifestNote {
    /// The sentence the note renders as.
    pub open spec fn spec_text(self) -> Seq<char> {
        "AUR ahead of repo, but repo chosen per policy"@
    }

    /// Render the note for human readers.
    pub fn text(self) -> (r: &'static str)
        ensures
            r@ == self.spec_text(),
    {
        "AUR ahead of repo, but repo chosen per policy"
    }
}

/// Per-package manifest entry: the verdict of reconciliation.
#[derive(Debug, PartialEq, Eq)]
pub struct ManifestEntry {
    pub installed_version: String,
    pub version_repo: Option<String>,
    pub version_aur: Option<String>,
    pub newer_version: String,
    pub source: PackageSource,
    pub update_available: bool,
    pub notes: Option<ManifestNote>,
    pub download_size_repo: Option<u64>,
    pub installed_size_repo: Option<u64>,
    pub download_size_aur: Option<u64>,
    pub installed_size_aur: Option<u64>,
    pub download_size_selected: Option<u64>,
    pub installed_size_selected: Option<u64>,
}

/// Metadata block describing manifest context.
#[derive(Debug, PartialEq, Eq)]
pub struct ManifestMetadata {
    pub generated_at: String,
    pub generated_by: String,
    pub total_packages: usize,
    pub repo_candidates: usize,
    pub aur_candidates: usize,
    pub updates_available: usize,
    pub download_size_total: u64,
}

/// The full manifest document: one entry per package, in input order,
/// plus the run-level counters.
#[derive(Debug)]
pub struct ManifestDocument {
    pub metadata: ManifestMetadata,
    pub packages: Vec<(String, ManifestEntry)>,
}

/// The external comparator's verdicts for one package: installed
/// version against each present candidate, and the candidates against
/// each other when both answered.
#[derive(Debug, Clone, Copy)]
pub struct PackageComparisons {
    /// compare(installed, repo candidate), when the repo answered.
    pub repo_cmp: Option<Ordering>,
    /// compare(installed, AUR candidate), when the AUR answered.
    pub aur_cmp: Option<Ordering>,
    /// compare(repo candidate, AUR candidate), when both answered.
    pub repo_vs_aur: Option<Ordering>,
}

/// The record behind an optional reference.
pub open spec fn deref_opt(o: Option<&VersionInfo>) -> Option<VersionInfo> {
    match o {
        Some(v) => Some(*v),
        None => None,
    }
}

/// The verdict for one package, as a function of the candidate records
/// and the comparator's answers.
///
/// The decision table: with one candidate present, that source is
/// chosen and an update is available exactly when the installed version
/// compares below it. With both present, the repository wins unless the
/// AUR version is strictly newer (ties favor the repository); the note
/// is attached only on the repository-chosen path, when the AUR version
/// is strictly ahead of the installed one. With neither present the
/// entry keeps the installed version, sourced `Local` for locally built
/// packages and `Unknown` otherwise. The four per-source size fields
/// mirror whatever candidates answered; the two selected size fields
/// copy the chosen source's and stay absent for `Local` and `Unknown`.
pub open spec fn resolve_spec(
    pkg: InstalledPackage,
    repo: Option<VersionInfo>,
    aur: Option<VersionInfo>,
    repo_cmp: Option<Ordering>,
    aur_cmp: Option<Ordering>,
    repo_vs_aur: Option<Ordering>,
) -> ManifestEntry {
    let verdict = match (repo, repo_cmp, aur, aur_cmp) {
        (Some(repo_v), Some(rc), None, _) => (
            PackageSource::Pacman,
            repo_v.version,
            rc == Ordering::Less,
            None::<ManifestNote>,
        ),
        (None, _, Some(aur_v), Some(ac)) => (
            PackageSource::Aur,
            aur_v.version,
            ac == Ordering::Less,
            None::<ManifestNote>,
        ),
        (Some(repo_v), Some(rc), Some(aur_v), Some(ac)) => {
            if repo_vs_aur == Some(Ordering::Less) {
                (PackageSource::Aur, aur_v.version, ac == Ordering::Less, None::<ManifestNote>)
            } else {
                (
                    PackageSource::Pacman,
                    repo_v.version,
                    rc == Ordering::Less,
                    if ac == Ordering::Greater {
                        Some(ManifestNote::AurAheadRepoChosen)
                    } else {
                        None::<ManifestNote>
                    },
                )
            }
        },
        (None, _, None, _) => (
            if is_local_pkg(pkg) {
                PackageSource::Local
            } else {
                PackageSource::Unknown
            },
            pkg.version,
            false,
            None::<ManifestNote>,
        ),
        _ => (PackageSource::Unknown, pkg.version, false, None::<ManifestNote>),
    };
    let download_repo = match repo {
        Some(i) => i.download_size,
        None => None::<u64>,
    };
    let installed_repo = match repo {
        Some(i) => i.installed_size,
        None => None::<u64>,
    };
    let download_aur = match aur {
        Some(i) => i.download_size,
        None => None::<u64>,
    };
    let installed_aur = match aur {
        Some(i) => i.installed_size,
        None => None::<u64>,
    };
    let selected = match verdict.0 {
        PackageSource::Pacman => (download_repo, installed_repo),
        PackageSource::Aur => (download_aur, installed_aur),
        PackageSource::Local => (None::<u64>, None::<u64>),
        PackageSource::Unknown => (None::<u64>, None::<u64>),
    };
    ManifestEntry {
        installed_version: pkg.version,
        version_repo: match repo {
            Some(i) => Some(i.version),
            None => None::<String>,
        },
        version_aur: match aur {
            Some(i) => Some(i.version),
            None => None::<String>,
        },
        newer_version: verdict.1,
        source: verdict.0,
        update_available: verdict.2,
        notes: verdict.3,
        download_size_repo: download_repo,
        installed_size_repo: installed_repo,
        download_size_aur: download_aur,
        installed_size_aur: installed_aur,
        download_size_selected: selected.0,
        installed_size_selected: selected.1,
    }
}

/// Reconcile one package against its candidate records.
///
/// The comparator's verdicts must cover exactly the candidates that are
/// present. The result equals [`resolve_spec`] of the inputs — in
/// particular, resolution is deterministic: rerunning it on identical
/// inputs yields the identical entry.
pub fn resolve_package(
    package: &InstalledPackage,
    repo_info: Option<&VersionInfo>,
    aur_info: Option<&VersionInfo>,
    repo_cmp: Option<Ordering>,
    aur_cmp: Option<Ordering>,
    repo_vs_aur: Option<Ordering>,
) -> (r: ManifestEntry)
    requires
        repo_cmp is Some <==> repo_info is Some,
        aur_cmp is Some <==> aur_info is Some,
        repo_info is Some && aur_info is Some ==> repo_vs_aur is Some,
    ensures
        r == resolve_spec(
            *package,
            deref_opt(repo_info),
            deref_opt(aur_info),
            repo_cmp,
            aur_cmp,
            repo_vs_aur,
        ),
{
    let (source, target_version, update_available, notes): (
        PackageSource,
        String,
        bool,
        Option<ManifestNote>,
    ) = match (repo_info, repo_cmp, aur_info, aur_cmp) {
        (Some(repo_v), Some(rc), None, _) => (
            PackageSource::Pacman,
            repo_v.version.clone(),
            matches!(rc, Ordering::Less),
            None,
        ),
        (None, _, Some(aur_v), Some(ac)) => (
            PackageSource::Aur,
            aur_v.version.clone(),
            matches!(ac, Ordering::Less),
            None,
        ),
        (Some(repo_v), Some(rc), Some(aur_v), Some(ac)) => {
            let rva = match repo_vs_aur {
                Some(o) => o,
                None => unreached(),
            };
            match rva {
                Ordering::Greater | Ordering::Equal => (
                    PackageSource::Pacman,
                    repo_v.version.clone(),
                    matches!(rc, Ordering::Less),
                    if matches!(ac, Ordering::Greater) {
                        Some(ManifestNote::AurAheadRepoChosen)
                    } else {
                        None
                    },
                ),
                Ordering::Less => (
                    PackageSource::Aur,
                    aur_v.version.clone(),
                    matches!(ac, Ordering::Less),
                    None,
                ),
            }
        },
        (None, _, None, _) => (
            if is_local_repository(package) {
                PackageSource::Local
            } else {
                PackageSource::Unknown
            },
            package.version.clone(),
            false,
            None,
        ),
        _ => unreached(),
    };

    let download_repo = match repo_info {
        Some(info) => info.download_size,
        None => None,
    };
    let installed_repo = match repo_info {
        Some(info) => info.installed_size,
        None => None,
    };
    let download_aur = match aur_info {
        Some(info) => info.download_size,
        None => None,
    };
    let installed_aur = match aur_info {
        Some(info) => info.installed_size,
        None => None,
    };
    let (download_selected, installed_selected) = match source {
        PackageSource::Pacman => (download_repo, installed_repo),
        PackageSource::Aur => (download_aur, installed_aur),
        _ => (None, None),
    };

    ManifestEntry {
        installed_version: package.version.clone(),
        version_repo: match repo_info {
            Some(info) => Some(info.version.clone()),
            None => None,
        },
        version_aur: match aur_info {
            Some(info) => Some(info.version.clone()),
            None => None,
        },
        newer_version: target_version,
        source,
        update_available,
        notes,
        download_size_repo: download_repo,
        installed_size_repo: installed_repo,
        download_size_aur: download_aur,
        installed_size_aur: installed_aur,
        download_size_selected: download_selected,
        installed_size_selected: installed_selected,
    }
}

/// The candidate record a mapping holds for a name, if any.
pub open spec fn lookup(m: Map<Seq<char>, VersionInfo>, k: Seq<char>) -> Option<VersionInfo> {
    if m.contains_key(k) {
        Some(m[k])
    } else {
        None
    }
}

/// Whether the comparator verdicts cover exactly the candidates present
/// for every package.
pub open spec fn cmps_consistent(
    pkgs: Seq<InstalledPackage>,
    repo: Map<Seq<char>, VersionInfo>,
    aur: Map<Seq<char>, VersionInfo>,
    cmps: Seq<PackageComparisons>,
) -> bool {
    &&& cmps.len() == pkgs.len()
    &&& forall|i: int|
        0 <= i < pkgs.len() ==> {
            &&& (#[trigger] cmps[i].repo_cmp is Some <==> repo.contains_key(pkgs[i].name@))
            &&& (cmps[i].aur_cmp is Some <==> aur.contains_key(pkgs[i].name@))
            &&& (repo.contains_key(pkgs[i].name@) && aur.contains_key(pkgs[i].name@)
                ==> cmps[i].repo_vs_aur is Some)
        }
}

/// The verdict owed to package `i`.
pub open spec fn entry_for(
    pkgs: Seq<InstalledPackage>,
    repo: Map<Seq<char>, VersionInfo>,
    aur: Map<Seq<char>, VersionInfo>,
    cmps: Seq<PackageComparisons>,
    i: int,
) -> ManifestEntry {
    resolve_spec(
        pkgs[i],
        lookup(repo, pkgs[i].name@),
        lookup(aur, pkgs[i].name@),
        cmps[i].repo_cmp,
        cmps[i].aur_cmp,
        cmps[i].repo_vs_aur,
    )
}

/// How many of the first `n` packages the repo mapping has a record for.
pub open spec fn count_candidates(
    pkgs: Seq<InstalledPackage>,
    repo: Map<Seq<char>, VersionInfo>,
    n: int,
) -> int
    decreases n,
{
    if n <= 0 {
        0
    } else {
        count_candidates(pkgs, repo, n - 1) + if repo.contains_key(pkgs[n - 1].name@) {
            1int
        } else {
            0int
        }
    }
}

/// How many of the first `n` packages get an update-available verdict.
pub open spec fn count_updates(
    pkgs: Seq<InstalledPackage>,
    repo: Map<Seq<char>, VersionInfo>,
    aur: Map<Seq<char>, VersionInfo>,
    cmps: Seq<PackageComparisons>,
    n: int,
) -> int
    decreases n,
{
    if n <= 0 {
        0
    } else {
        count_updates(pkgs, repo, aur, cmps, n - 1) + if entry_for(
            pkgs,
            repo,
            aur,
            cmps,
            n - 1,
        ).update_available {
            1int
        } else {
            0int
        }
    }
}

/// The saturating sum of the selected download sizes over the first `n`
/// packages with an update-available verdict.
pub open spec fn download_total(
    pkgs: Seq<InstalledPackage>,
    repo: Map<Seq<char>, VersionInfo>,
    aur: Map<Seq<char>, VersionInfo>,
    cmps: Seq<PackageComparisons>,
    n: int,
) -> u64
    decreases n,
{
    if n <= 0 {
        0u64
    } else {
        let prev = download_total(pkgs, repo, aur, cmps, n - 1);
        let e = entry_for(pkgs, repo, aur, cmps, n - 1);
        if e.update_available {
            match e.download_size_selected {
                Some(size) => sat_add(prev, size),
                None => prev,
            }
        } else {
            prev
        }
    }
}

/// Build the manifest: one verdict per installed package, in input
/// order, and the run-level counters — candidate counts per source, the
/// number of update-available verdicts, and the saturating total of
/// their selected download sizes.
///
/// The caller lists each installed package once, in the order the
/// manifest should keep; the entries mirror that order key for key.
pub fn build_manifest(
    packages: &Vec<InstalledPackage>,
    repo_versions: &VersionMap,
    aur_versions: &VersionMap,
    comparisons: &Vec<PackageComparisons>,
    generated_at: String,
) -> (r: ManifestDocument)
    requires
        cmps_consistent(packages@, repo_versions@, aur_versions@, comparisons@),
    ensures
        r.packages@.len() == packages@.len(),
        forall|i: int|
            0 <= i < packages@.len() ==> #[trigger] r.packages@[i].0@ == packages@[i].name@
                && r.packages@[i].1 == entry_for(
                packages@,
                repo_versions@,
                aur_versions@,
                comparisons@,
                i,
            ),
        r.metadata.generated_at == generated_at,
        r.metadata.generated_by@ == "synsyu_core"@,
        r.metadata.total_packages == packages@.len(),
        r.metadata.repo_candidates == count_candidates(packages@, repo_versions@, packages@.len() as int),
        r.metadata.aur_candidates == count_candidates(packages@, aur_versions@, packages@.len() as int),
        r.metadata.updates_available == count_updates(
            packages@,
            repo_versions@,
            aur_versions@,
            comparisons@,
            packages@.len() as int,
        ),
        r.metadata.download_size_total == download_total(
            packages@,
            repo_versions@,
            aur_versions@,
            comparisons@,
            packages@.len() as int,
        ),
{
    let ghost pkgs = packages@;
    let ghost repo_m = repo_versions@;
    let ghost aur_m = aur_versions@;
    let ghost cmps = comparisons@;

    let mut entries: Vec<(String, ManifestEntry)> = Vec::new();
    let mut repo_candidates: usize = 0;
    let mut aur_candidates: usize = 0;
    let mut updates_available: usize = 0;
    let mut download_size_total: u64 = 0;

    let mut i: usize = 0;
    while i < packages.len()
        invariant
            i <= pkgs.len(),
            pkgs == packages@,
            repo_m == repo_versions@,
            aur_m == aur_versions@,
            cmps == comparisons@,
            cmps_consistent(pkgs, repo_m, aur_m, cmps),
            entries@.len() == i,
            forall|j: int|
                0 <= j < i ==> #[trigger] entries@[j].0@ == pkgs[j].name@ && entries@[j].1
                    == entry_for(pkgs, repo_m, aur_m, cmps, j),
            repo_candidates <= i,
            aur_candidates <= i,
            updates_available <= i,
            repo_candidates == count_candidates(pkgs, repo_m, i as int),
            aur_candidates == count_candidates(pkgs, aur_m, i as int),
            updates_available == count_updates(pkgs, repo_m, aur_m, cmps, i as int),
            download_size_total == download_total(pkgs, repo_m, aur_m, cmps, i as int),
        decreases pkgs.len() - i,
    {
        let repo_info = repo_versions.get(&packages[i].name);
        let aur_info = aur_versions.get(&packages[i].name);

        if repo_info.is_some() {
            repo_candidates += 1;
        }
        if aur_info.is_some() {
            aur_candidates += 1;
        }

        let entry = resolve_package(
            &packages[i],
            repo_info,
            aur_info,
            comparisons[i].repo_cmp,
            comparisons[i].aur_cmp,
            comparisons[i].repo_vs_aur,
        );
        proof {
            assert(deref_opt(repo_info) == lookup(repo_m, pkgs[i as int].name@));
            assert(deref_opt(aur_info) == lookup(aur_m, pkgs[i as int].name@));
            assert(entry == entry_for(pkgs, repo_m, aur_m, cmps, i as int));
        }

        if entry.update_available {
            updates_available += 1;
            match entry.download_size_selected {
                Some(size) => {
                    download_size_total = download_size_total.saturating_add(size);
                },
                None => {},
            }
        }

        entries.push((packages[i].name.clone(), entry));
        i += 1;
    }

    let metadata = ManifestMetadata {
        generated_at,
        generated_by: "synsyu_core".to_owned(),
        total_packages: packages.len(),
        repo_candidates,
        aur_candidates,
        updates_available,
        download_size_total,
    };

    ManifestDocument { metadata, packages: entries }
}

} // verus!
