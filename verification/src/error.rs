//! What can end a run before it has done its work.
//!
//! Every failure is final: nothing is tried again, and what was written stays
//! written. The failure of a run over a workspace that comes from one of its
//! manifests holds the failure of the run over that manifest as its cause.

use vstd::prelude::*;

verus! {

/// The reasons for which a run over one manifest ends in failure.
#[derive(Clone, Debug, PartialEq, Eq)]
pub enum UpgradeError {
    /// The manifest could not be loaded from this path, or found from the
    /// working directory where there is none.
    Load(Option<String>),
    /// The registry lookup of the named dependency failed.
    Lookup(String),
    /// The entry of the named dependency could not be rewritten.
    Edit(String),
    /// The manifest could not be written to this path, or to the file found
    /// from the working directory where there is none.
    Write(Option<String>),
    /// The named dependency is to be upgraded and is absent from the version
    /// cache: the cache was not built for this manifest.
    MissingFromCache(String),
}

/// The mathematical content of an `UpgradeError`.
pub enum UpgradeErrorView {
    Load(Option<Seq<char>>),
    Lookup(Seq<char>),
    Edit(Seq<char>),
    Write(Option<Seq<char>>),
    MissingFromCache(Seq<char>),
}

impl DeepView for UpgradeError {
    type V = UpgradeErrorView;

    open spec fn deep_view(&self) -> UpgradeErrorView {
        match self {
            UpgradeError::Load(path) => UpgradeErrorView::Load(path.deep_view()),
            UpgradeError::Lookup(name) => UpgradeErrorView::Lookup(name@),
            UpgradeError::Edit(name) => UpgradeErrorView::Edit(name@),
            UpgradeError::Write(path) => UpgradeErrorView::Write(path.deep_view()),
            UpgradeError::MissingFromCache(name) => UpgradeErrorView::MissingFromCache(name@),
        }
    }
}

/// The reasons for which a run over a workspace ends in failure.
#[derive(Clone, Debug, PartialEq, Eq)]
pub enum WorkspaceError {
    /// Workspace discovery failed.
    Discovery,
    /// The registry lookup of the named dependency failed while the version
    /// cache was filled.
    Lookup(String),
    /// The update of the manifest at `path` failed, for the reason `cause`.
    Manifest { path: String, cause: UpgradeError },
}

/// The mathematical content of a `WorkspaceError`.
pub enum WorkspaceErrorView {
    Discovery,
    Lookup(Seq<char>),
    Manifest { path: Seq<char>, cause: UpgradeErrorView },
}

impl DeepView for WorkspaceError {
    type V = WorkspaceErrorView;

    open spec fn deep_view(&self) -> WorkspaceErrorView {
        match self {
            WorkspaceError::Discovery => WorkspaceErrorView::Discovery,
            WorkspaceError::Lookup(name) => WorkspaceErrorView::Lookup(name@),
            WorkspaceError::Manifest { path, cause } => WorkspaceErrorView::Manifest {
                path: path@,
                cause: cause.deep_view(),
            },
        }
    }
}

/// A copy of a path that may be absent.
pub(crate) fn copy_path(path: &Option<String>) -> (copy: Option<String>)
    ensures
        copy.deep_view() == path.deep_view(),
{
    match path {
        Some(path) => Some(path.clone()),
        None => None,
    }
}

/// A copy of the failure of a run over a manifest.
pub(crate) fn copy_error(error: &UpgradeError) -> (copy: UpgradeError)
    ensures
        copy.deep_view() == error.deep_view(),
{
    match error {
        UpgradeError::Load(path) => UpgradeError::Load(copy_path(path)),
        UpgradeError::Lookup(name) => UpgradeError::Lookup(name.clone()),
        UpgradeError::Edit(name) => UpgradeError::Edit(name.clone()),
        UpgradeError::Write(path) => UpgradeError::Write(copy_path(path)),
        UpgradeError::MissingFromCache(name) => UpgradeError::MissingFromCache(name.clone()),
    }
}

/// A copy of the failure of a run over a workspace.
pub(crate) fn copy_workspace_error(error: &WorkspaceError) -> (copy: WorkspaceError)
    ensures
        copy.deep_view() == error.deep_view(),
{
    match error {
        WorkspaceError::Discovery => WorkspaceError::Discovery,
        WorkspaceError::Lookup(name) => WorkspaceError::Lookup(name.clone()),
        WorkspaceError::Manifest { path, cause } => WorkspaceError::Manifest {
            path: path.clone(),
            cause: copy_error(cause),
        },
    }
}

} // verus!
