//! Version metadata shared between the repository and AUR sources.

use vstd::prelude::*;

verus! {

/// Captures version metadata for a package source (repo or AUR).
///
/// Records are created fresh per run from source responses and never
/// mutated afterwards.
#[derive(Debug, PartialEq, Eq)]
pub struct VersionInfo {
    pub version: String,
    pub download_size: Option<u64>,
    pub installed_size: Option<u64>,
}

impl Clone for VersionInfo {
    fn clone(&self) -> (r: Self)
        ensures
            r == *self,
    {
        VersionInfo {
            version: self.version.clone(),
            download_size: self.download_size,
            installed_size: self.installed_size,
        }
    }
}

impl VersionInfo {
    /// Bundle a version string with its optional size metadata.
    pub fn new(version: String, download_size: Option<u64>, installed_size: Option<u64>) -> (r:
        Self)
        ensures
            r == (VersionInfo { version, download_size, installed_size }),
    {
        Self { version, download_size, installed_size }
    }
}

} // verus!
