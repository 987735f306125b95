//! Scaffolding for roadmap features: batched version comparison,
//! changelog inspection, and audit logging backends.
//!
//! No operational code lives here yet; the traits document planned
//! extension points for host-supplied plugins.

use vstd::prelude::*;

verus! {

/// Placeholder trait for batched version comparison accelerators.
pub trait VersionComparator {
    /// Execute a batch comparison between local and candidate versions.
    fn compare_batch(&self, pairs: &[(String, String)]) -> Vec<core::cmp::Ordering>;
}

/// Planned hook for changelog providers.
pub trait ChangelogProvider {
    /// Fetch changelog entries for the specified package.
    fn fetch_changelog(&self, package: &str) -> Vec<String>;
}

/// Planned hook for audit logging backends.
pub trait AuditBackend {
    /// Record an append-only audit entry.
    fn record(&self, message: &str);
}

/// Plugin registration entry point. Currently a stub.
pub fn register_plugin<T>(_plugin: T) where
    T: VersionComparator + ChangelogProvider + AuditBackend + Send + Sync + 'static,
 {
}

} // verus!
