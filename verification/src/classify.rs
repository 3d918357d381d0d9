//! Classification of one dependency declaration into its source kind.
//!
//! Every entry names exactly one source: the default crates registry, a
//! named external registry, a registry index URL, a local path, or a git
//! repository (with at most one of branch/tag/rev). Entries that set more
//! than one locator, or more than one git qualifier, are ambiguous and
//! rejected.

use vstd::prelude::*;

use crate::errors::DepError;
use crate::manifest::{DepDetail, Dependency};

verus! {

/// The git ref qualifier of a git dependency.
pub enum GitRef {
    /// No branch, tag or revision given.
    NotSpecified,
    /// `tag = "..."`.
    Tag(String),
    /// `branch = "..."`.
    Branch(String),
    /// `rev = "..."`.
    Rev(String),
}

/// The source a dependency declaration names.
pub enum DepSource {
    /// The default crates registry; needs no external input.
    CratesIo,
    /// A named external registry.
    RegistryName { name: String },
    /// An external registry given by its index URL.
    RegistryUrl { url: String },
    /// A local path, with its canonical resolution when one is known.
    LocalPath { path: String, canon: Option<String> },
    /// A git repository with its ref qualifier.
    Git { url: String, ref_: GitRef },
}

/// The git ref qualifier of a detailed entry: at most one of `branch`,
/// `tag`, `rev` may be set.
pub open spec fn spec_git_ref(d: DepDetail) -> Result<GitRef, DepError> {
    match (d.branch, d.tag, d.rev) {
        (Option::None, Option::None, Option::None) => Ok(GitRef::NotSpecified),
        (Option::Some(b), Option::None, Option::None) => Ok(GitRef::Branch(b)),
        (Option::None, Option::Some(t), Option::None) => Ok(GitRef::Tag(t)),
        (Option::None, Option::None, Option::Some(r)) => Ok(GitRef::Rev(r)),
        _ => Err(DepError::AmbiguousGitRef),
    }
}

/// The source kind of a dependency declaration: the short form is the
/// default registry; a detailed form must set at most one of the four
/// locator fields.
pub open spec fn spec_classify(dep: Dependency) -> Result<DepSource, DepError> {
    match dep {
        Dependency::Simple(_) => Ok(DepSource::CratesIo),
        Dependency::Detailed(d) => match (d.registry, d.registry_index, d.path, d.git) {
            (Option::None, Option::None, Option::None, Option::None) => Ok(DepSource::CratesIo),
            (Option::Some(name), Option::None, Option::None, Option::None) => Ok(
                DepSource::RegistryName { name },
            ),
            (Option::None, Option::Some(url), Option::None, Option::None) => Ok(
                DepSource::RegistryUrl { url },
            ),
            (Option::None, Option::None, Option::Some(path), Option::None) => Ok(
                DepSource::LocalPath { path, canon: d.path_canon },
            ),
            (Option::None, Option::None, Option::None, Option::Some(url)) => match spec_git_ref(
                d,
            ) {
                Ok(r) => Ok(DepSource::Git { url, ref_: r }),
                Err(e) => Err(e),
            },
            _ => Err(DepError::AmbiguousSource),
        },
    }
}

impl DepSource {
    /// Classify one dependency declaration.
    pub fn try_from_dep(dep: &Dependency) -> (r: Result<DepSource, DepError>)
        ensures
            r == spec_classify(*dep),
    {
        match dep {
            Dependency::Simple(_) => Ok(DepSource::CratesIo),
            Dependency::Detailed(d) => match (&d.registry, &d.registry_index, &d.path, &d.git) {
                (Option::None, Option::None, Option::None, Option::None) => Ok(
                    DepSource::CratesIo,
                ),
                (Option::Some(name), Option::None, Option::None, Option::None) => Ok(
                    DepSource::RegistryName { name: name.clone() },
                ),
                (Option::None, Option::Some(url), Option::None, Option::None) => Ok(
                    DepSource::RegistryUrl { url: url.clone() },
                ),
                (Option::None, Option::None, Option::Some(path), Option::None) => {
                    let canon = match &d.path_canon {
                        Option::Some(c) => Option::Some(c.clone()),
                        Option::None => Option::None,
                    };
                    Ok(DepSource::LocalPath { path: path.clone(), canon })
                },
                (Option::None, Option::None, Option::None, Option::Some(url)) => {
                    match (&d.branch, &d.tag, &d.rev) {
                        (Option::None, Option::None, Option::None) => Ok(
                            DepSource::Git { url: url.clone(), ref_: GitRef::NotSpecified },
                        ),
                        (Option::Some(b), Option::None, Option::None) => Ok(
                            DepSource::Git { url: url.clone(), ref_: GitRef::Branch(b.clone()) },
                        ),
                        (Option::None, Option::Some(t), Option::None) => Ok(
                            DepSource::Git { url: url.clone(), ref_: GitRef::Tag(t.clone()) },
                        ),
                        (Option::None, Option::None, Option::Some(r)) => Ok(
                            DepSource::Git { url: url.clone(), ref_: GitRef::Rev(r.clone()) },
                        ),
                        _ => Err(DepError::AmbiguousGitRef),
                    }
                },
                _ => Err(DepError::AmbiguousSource),
            },
        }
    }
}

/// An entry that sets both `path` and `git` is ambiguous, whatever its other
/// fields hold.
pub proof fn lemma_path_and_git_ambiguous(d: DepDetail)
    requires
        d.path is Some,
        d.git is Some,
    ensures
        spec_classify(Dependency::Detailed(d)) == Err::<DepSource, DepError>(
            DepError::AmbiguousSource,
        ),
{
}

/// A git dependency that sets both `tag` and `rev` is ambiguous.
pub proof fn lemma_tag_and_rev_ambiguous(d: DepDetail)
    requires
        d.registry is None,
        d.registry_index is None,
        d.path is None,
        d.git is Some,
        d.tag is Some,
        d.rev is Some,
    ensures
        spec_classify(Dependency::Detailed(d)) == Err::<DepSource, DepError>(
            DepError::AmbiguousGitRef,
        ),
{
}

} // verus!
