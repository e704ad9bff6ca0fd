//! Decision logic for upgrading the dependencies of package manifests to the
//! latest registry release.
//!
//! The crate decides *what* is to be done: which manifest entries are
//! eligible, which names are looked up in the registry and in what order,
//! which specifier goes into which entry, when a manifest is written, and how
//! a run proceeds and stops. Reading and writing files, asking the registry
//! and discovering the workspace are left to the caller, who performs the
//! actions that a run asks for and tells it how they went.

pub mod cache;
pub mod coordinator;
pub mod eligibility;
pub mod error;
pub mod manifest;
pub mod names;
pub mod traversal;
pub mod updater;
pub mod workspace;

pub use cache::VersionCache;
pub use coordinator::{
    update_workspace_manifests, WorkspaceAction, WorkspaceEvent, WorkspaceRun,
};
pub use eligibility::{is_registry_eligible, is_version_dependency};
pub use error::{UpgradeError, WorkspaceError};
pub use manifest::{
    keep_present, Entry, Section, YieldedEntry, YieldedKey, YieldedSection,
};
pub use traversal::{upgrade_targets, Target};
pub use updater::{
    update_manifest, update_manifest_from_cache, ManifestAction, ManifestEvent, ManifestRun,
    Update,
};
pub use workspace::{
    get_all_new_deps, get_specified_new_deps, get_workspace_manifests, Package,
};
