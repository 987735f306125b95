use core::cmp::Ordering;

use synsyu_core::manifest::{
    build_manifest, resolve_package, ManifestNote, PackageComparisons, PackageSource,
};
use synsyu_core::package_info::VersionInfo;
use synsyu_core::pacman::{
    aur_query_candidates, filter_packages, is_local_repository, repo_query_candidates,
    InstalledPackage,
};
use synsyu_core::version_map::VersionMap;

fn pkg(name: &str, version: &str, repository: Option<&str>) -> InstalledPackage {
    InstalledPackage {
        name: name.to_string(),
        version: version.to_string(),
        repository: repository.map(|r| r.to_string()),
    }
}

fn info(version: &str, download: Option<u64>, installed: Option<u64>) -> VersionInfo {
    VersionInfo::new(version.to_string(), download, installed)
}

#[test]
fn repo_only_update_available() {
    let p = pkg("alpha", "1.0-1", Some("extra"));
    let repo = info("1.1-1", Some(1024), Some(4096));
    let entry = resolve_package(&p, Some(&repo), None, Some(Ordering::Less), None, None);
    assert_eq!(entry.source, PackageSource::Pacman);
    assert_eq!(entry.newer_version, "1.1-1");
    assert!(entry.update_available);
    assert_eq!(entry.installed_version, "1.0-1");
    assert_eq!(entry.version_repo.as_deref(), Some("1.1-1"));
    assert_eq!(entry.version_aur, None);
    assert_eq!(entry.download_size_selected, Some(1024));
    assert_eq!(entry.installed_size_selected, Some(4096));
    assert_eq!(entry.notes, None);
}

#[test]
fn aur_only_update_available() {
    let p = pkg("beta", "2.0-1", None);
    let aur = info("2.1-1", Some(55), None);
    let entry = resolve_package(&p, None, Some(&aur), None, Some(Ordering::Less), None);
    assert_eq!(entry.source, PackageSource::Aur);
    assert_eq!(entry.newer_version, "2.1-1");
    assert!(entry.update_available);
    assert_eq!(entry.download_size_selected, Some(55));
    assert_eq!(entry.installed_size_selected, None);
}

#[test]
fn tie_prefers_repo_without_note() {
    let p = pkg("gamma", "2.0-1", Some("core"));
    let repo = info("2.0-1", Some(10), Some(20));
    let aur = info("2.0-1", Some(30), Some(40));
    let entry = resolve_package(
        &p,
        Some(&repo),
        Some(&aur),
        Some(Ordering::Equal),
        Some(Ordering::Equal),
        Some(Ordering::Equal),
    );
    assert_eq!(entry.source, PackageSource::Pacman);
    assert_eq!(entry.newer_version, "2.0-1");
    assert!(!entry.update_available);
    assert_eq!(entry.notes, None);
    // Selected sizes mirror the chosen repository record only.
    assert_eq!(entry.download_size_selected, Some(10));
    assert_eq!(entry.installed_size_selected, Some(20));
    // The audit fields still carry both sources.
    assert_eq!(entry.download_size_aur, Some(30));
    assert_eq!(entry.installed_size_aur, Some(40));
}

#[test]
fn aur_strictly_newer_wins() {
    let p = pkg("delta", "1.0-1", Some("extra"));
    let repo = info("1.0-1", Some(10), None);
    let aur = info("1.2-1", Some(30), None);
    let entry = resolve_package(
        &p,
        Some(&repo),
        Some(&aur),
        Some(Ordering::Equal),
        Some(Ordering::Less),
        Some(Ordering::Less),
    );
    assert_eq!(entry.source, PackageSource::Aur);
    assert_eq!(entry.newer_version, "1.2-1");
    assert!(entry.update_available);
    assert_eq!(entry.download_size_selected, Some(30));
}

#[test]
fn repo_chosen_with_aur_ahead_note() {
    // Repo wins the source comparison, yet the AUR version is strictly
    // ahead of the installed one: the policy note is attached.
    let p = pkg("epsilon", "3.0-1", Some("extra"));
    let repo = info("3.1-1", None, None);
    let aur = info("3.0-0.5", None, None);
    let entry = resolve_package(
        &p,
        Some(&repo),
        Some(&aur),
        Some(Ordering::Less),
        Some(Ordering::Greater),
        Some(Ordering::Greater),
    );
    assert_eq!(entry.source, PackageSource::Pacman);
    assert_eq!(entry.newer_version, "3.1-1");
    assert!(entry.update_available);
    assert_eq!(entry.notes, Some(ManifestNote::AurAheadRepoChosen));
    assert_eq!(
        entry.notes.unwrap().text(),
        "AUR ahead of repo, but repo chosen per policy"
    );
}

#[test]
fn local_package_without_records() {
    let p = pkg("zeta", "0.9-1", Some("local"));
    let entry = resolve_package(&p, None, None, None, None, None);
    assert_eq!(entry.source, PackageSource::Local);
    assert!(!entry.update_available);
    assert_eq!(entry.newer_version, "0.9-1");
    assert_eq!(entry.download_size_selected, None);
    assert_eq!(entry.installed_size_selected, None);
}

#[test]
fn unknown_package_without_records() {
    let p = pkg("eta", "0.1-1", Some("extra"));
    let entry = resolve_package(&p, None, None, None, None, None);
    assert_eq!(entry.source, PackageSource::Unknown);
    assert!(!entry.update_available);
    assert_eq!(entry.newer_version, "0.1-1");
}

#[test]
fn resolve_is_idempotent() {
    let p = pkg("theta", "1.0-1", Some("extra"));
    let repo = info("1.1-1", Some(100), Some(200));
    let aur = info("1.2-1", Some(300), Some(400));
    let first = resolve_package(
        &p,
        Some(&repo),
        Some(&aur),
        Some(Ordering::Less),
        Some(Ordering::Less),
        Some(Ordering::Less),
    );
    let second = resolve_package(
        &p,
        Some(&repo),
        Some(&aur),
        Some(Ordering::Less),
        Some(Ordering::Less),
        Some(Ordering::Less),
    );
    assert_eq!(first, second);
}

#[test]
fn build_manifest_counts_and_entries() {
    let packages = vec![
        pkg("alpha", "1.0-1", Some("extra")),
        pkg("beta", "2.0-1", None),
        pkg("omega", "5.0-1", Some("local")),
    ];
    let mut repo = VersionMap::new();
    repo.insert("alpha".to_string(), info("1.1-1", Some(1000), Some(2000)));
    let mut aur = VersionMap::new();
    aur.insert("beta".to_string(), info("2.1-1", Some(77), None));
    let comparisons = vec![
        PackageComparisons {
            repo_cmp: Some(Ordering::Less),
            aur_cmp: None,
            repo_vs_aur: None,
        },
        PackageComparisons {
            repo_cmp: None,
            aur_cmp: Some(Ordering::Less),
            repo_vs_aur: None,
        },
        PackageComparisons {
            repo_cmp: None,
            aur_cmp: None,
            repo_vs_aur: None,
        },
    ];
    let doc = build_manifest(
        &packages,
        &repo,
        &aur,
        &comparisons,
        "2024-11-04T00:00:00Z".to_string(),
    );
    assert_eq!(doc.metadata.generated_at, "2024-11-04T00:00:00Z");
    assert_eq!(doc.metadata.generated_by, "synsyu_core");
    assert_eq!(doc.metadata.total_packages, 3);
    assert_eq!(doc.metadata.repo_candidates, 1);
    assert_eq!(doc.metadata.aur_candidates, 1);
    assert_eq!(doc.metadata.updates_available, 2);
    assert_eq!(doc.metadata.download_size_total, 1077);
    assert_eq!(doc.packages.len(), 3);
    assert_eq!(doc.packages[0].0, "alpha");
    assert_eq!(doc.packages[0].1.source, PackageSource::Pacman);
    assert_eq!(doc.packages[1].0, "beta");
    assert_eq!(doc.packages[1].1.source, PackageSource::Aur);
    assert_eq!(doc.packages[2].0, "omega");
    assert_eq!(doc.packages[2].1.source, PackageSource::Local);
}

#[test]
fn build_manifest_download_total_saturates() {
    let packages = vec![
        pkg("big1", "1.0-1", Some("extra")),
        pkg("big2", "1.0-1", Some("extra")),
    ];
    let mut repo = VersionMap::new();
    repo.insert("big1".to_string(), info("2.0-1", Some(u64::MAX), None));
    repo.insert("big2".to_string(), info("2.0-1", Some(5), None));
    let aur = VersionMap::new();
    let cmp = PackageComparisons {
        repo_cmp: Some(Ordering::Less),
        aur_cmp: None,
        repo_vs_aur: None,
    };
    let doc = build_manifest(
        &packages,
        &repo,
        &aur,
        &vec![cmp, cmp],
        "t".to_string(),
    );
    assert_eq!(doc.metadata.updates_available, 2);
    assert_eq!(doc.metadata.download_size_total, u64::MAX);
}

#[test]
fn filter_packages_selects_and_reports_missing() {
    let installed = vec![
        pkg("alpha", "1.0-1", Some("extra")),
        pkg("beta", "2.0-1", None),
        pkg("gamma", "3.0-1", Some("core")),
    ];
    let requested = vec!["beta".to_string(), "nonexistent".to_string()];
    let (selected, missing) = filter_packages(&installed, &requested);
    assert_eq!(selected.len(), 1);
    assert_eq!(selected[0].name, "beta");
    assert_eq!(missing, vec!["nonexistent".to_string()]);
}

#[test]
fn repo_candidates_skip_local_and_unsourced_packages() {
    let installed = vec![
        pkg("alpha", "1.0-1", Some("extra")),
        pkg("homebuilt", "0.1-1", Some("local")),
        pkg("orphan", "0.2-1", None),
        pkg("beta", "2.0-1", Some("core")),
    ];
    assert!(is_local_repository(&installed[1]));
    assert!(!is_local_repository(&installed[0]));
    assert!(!is_local_repository(&installed[2]));
    let candidates = repo_query_candidates(&installed);
    assert_eq!(candidates, vec!["alpha".to_string(), "beta".to_string()]);
}

#[test]
fn aur_candidates_are_names_the_repo_missed() {
    let installed = vec![
        pkg("alpha", "1.0-1", Some("extra")),
        pkg("homebuilt", "0.1-1", Some("local")),
        pkg("beta", "2.0-1", Some("core")),
    ];
    let mut repo = VersionMap::new();
    repo.insert("alpha".to_string(), info("1.1-1", None, None));
    let candidates = aur_query_candidates(&installed, &repo);
    assert_eq!(
        candidates,
        vec!["homebuilt".to_string(), "beta".to_string()]
    );
}

#[test]
fn filter_packages_empty_request_selects_all() {
    let installed = vec![pkg("alpha", "1.0-1", None), pkg("beta", "2.0-1", None)];
    let requested: Vec<String> = Vec::new();
    let (selected, missing) = filter_packages(&installed, &requested);
    assert_eq!(selected.len(), 2);
    assert!(missing.is_empty());
}
