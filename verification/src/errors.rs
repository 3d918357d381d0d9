//! The errors the descriptor builder reports.
//!
//! Every failure is fatal and carries the context that identifies its
//! origin: a dependency error names the offending dependency and, inside a
//! workspace, the member package that declares it.

use vstd::prelude::*;

use crate::flake_ref::UrlError;

verus! {

/// Why one dependency entry was rejected.
#[derive(Debug, Clone, PartialEq, Eq)]
pub enum DepError {
    /// The entry names an external registry by name; no target representation
    /// exists for those.
    NamedRegistry { name: String },
    /// More than one of `registry`, `registry-index`, `path`, `git` is set.
    AmbiguousSource,
    /// More than one of `branch`, `tag`, `rev` is set on a git dependency.
    AmbiguousGitRef,
    /// A local path dependency outside a workspace.
    LocalPathForbidden { path: String },
    /// A local path dependency that does not resolve to a workspace member.
    LocalPathNotMember { path: String },
    /// A local path dependency whose path could not be canonicalized.
    CanonicalizeFailed { path: String },
    /// The source URL was rejected by the normalizer.
    BadUrl { url: String, kind: UrlError },
}

/// Why a whole build was rejected.
#[derive(Debug, Clone, PartialEq, Eq)]
pub enum Error {
    /// The manifest declares `[patch]`, which is unsupported.
    PatchUnsupported,
    /// The manifest declares `[workspace]` without explicit members.
    EmptyWorkspaceMembers,
    /// Two workspace member patterns expand to the same directory.
    DuplicatedWorkspaceMembers,
    /// The manifest declares `[workspace]`, which the older generator does
    /// not support.
    WorkspaceUnsupported,
    /// The manifest declares no `[package]`, which the older generator
    /// requires.
    MissingPackage,
    /// A dependency was rejected; `member_dir` names the workspace member
    /// that declares it, or is `None` for the root package.
    Dep { member_dir: Option<String>, dep_name: String, err: DepError },
}

} // verus!
