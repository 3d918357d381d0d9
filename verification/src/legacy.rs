//! The older normalization policy, kept alongside the current one.
//!
//! This variant differs from [`crate::flake_ref`] in two ways: a ref name is
//! mandatory (callers substitute a default branch name when the manifest
//! names none), and outside the GitHub shortcut a revision does not replace
//! the ref name but is appended after it, as `?ref=<name>&rev=<hash>`. Inside
//! the GitHub shortcut the reference always carries a trailing segment, the
//! revision if one is given, else the ref name.

use vstd::prelude::*;

use crate::builder::{git_rev, git_source_id, git_source_id_exec};
use crate::classify::{DepSource, GitRef, spec_classify};
use crate::errors::{DepError, Error};
use crate::flake_ref::{github_match, github_match_exec, has_supported_scheme, opt_view,
    strip_git_plus, UrlError};
use crate::manifest::{Dependency, Manifest, all_deps_of, get_all_dependencies};
use crate::pairset::StrPairSet;
use crate::strutil::{str_contains_char, str_starts_with};

verus! {

/// The flake reference under the older policy, or the error rejecting the
/// URL. Scheme acceptance, the GitHub shortcut and the query/fragment
/// rejection are exactly those of [`crate::flake_ref::spec_normalize`].
pub open spec fn spec_normalize_legacy(
    url: Seq<char>,
    ref_name: Seq<char>,
    rev: Option<Seq<char>>,
) -> Result<Seq<char>, UrlError> {
    let u = strip_git_plus(url);
    if !has_supported_scheme(u) {
        Err(UrlError::UnsupportedScheme)
    } else {
        match github_match(u) {
            Some((owner, repo)) => {
                let base = "github:"@ + owner + "/"@ + repo;
                Ok(
                    match rev {
                        Some(rv) => base + "/"@ + rv,
                        None => base + "/"@ + ref_name,
                    },
                )
            },
            None => {
                if u.contains('?') || u.contains('#') {
                    Err(UrlError::QueryOrFragment)
                } else {
                    let prefix = if "git://"@.is_prefix_of(u) {
                        Seq::<char>::empty()
                    } else {
                        "git+"@
                    };
                    let with_ref = prefix + u + "?ref="@ + ref_name;
                    Ok(
                        match rev {
                            Some(rv) => with_ref + "&rev="@ + rv,
                            None => with_ref,
                        },
                    )
                }
            },
        }
    }
}

/// Rewrite a git or registry URL into its flake reference under the older
/// policy: the ref name is mandatory, and a revision is appended after it
/// rather than replacing it.
pub fn git_url_to_flake_ref(url_orig: &str, ref_name: &str, rev: Option<&str>) -> (r: Result<
    String,
    UrlError,
>)
    ensures
        match r {
            Ok(s) => spec_normalize_legacy(url_orig@, ref_name@, opt_view(rev)) == Ok::<
                Seq<char>,
                UrlError,
            >(s@),
            Err(e) => spec_normalize_legacy(url_orig@, ref_name@, opt_view(rev)) == Err::<
                Seq<char>,
                UrlError,
            >(e),
        },
{
    let n: usize = url_orig.unicode_len();
    let url: &str = if str_starts_with(url_orig, "git+") {
        proof {
            reveal_strlit("git+");
        }
        let u0 = url_orig.substring_char(4, n);
        proof {
            assert(u0@ =~= url_orig@.skip("git+"@.len() as int));
        }
        u0
    } else {
        url_orig
    };
    let ghost u: Seq<char> = strip_git_plus(url_orig@);
    assert(url@ == u);

    if !(str_starts_with(url, "http://") || str_starts_with(url, "https://") || str_starts_with(
        url,
        "ssh://",
    ) || str_starts_with(url, "git://")) {
        return Err(UrlError::UnsupportedScheme);
    }

    match github_match_exec(url) {
        Some(pair) => {
            let (owner, repo) = pair;
            let mut out = String::new();
            out.append("github:");
            out.append(owner.as_str());
            out.append("/");
            out.append(repo.as_str());
            out.append("/");
            let ghost stem: Seq<char> = "github:"@ + owner@ + "/"@ + repo@ + "/"@;
            assert(out@ =~= stem);
            match rev {
                Some(rv) => {
                    out.append(rv);
                    assert(out@ =~= stem + rv@);
                },
                None => {
                    out.append(ref_name);
                    assert(out@ =~= stem + ref_name@);
                },
            }
            Ok(out)
        },
        None => {
            if str_contains_char(url, '?') || str_contains_char(url, '#') {
                return Err(UrlError::QueryOrFragment);
            }
            let mut out = String::new();
            if !str_starts_with(url, "git://") {
                out.append("git+");
            }
            out.append(url);
            out.append("?ref=");
            out.append(ref_name);
            let ghost prefix: Seq<char> = if "git://"@.is_prefix_of(u) {
                Seq::<char>::empty()
            } else {
                "git+"@
            };
            let ghost with_ref: Seq<char> = prefix + u + "?ref="@ + ref_name@;
            assert(out@ =~= with_ref);
            match rev {
                Some(rv) => {
                    out.append("&rev=");
                    out.append(rv);
                    assert(out@ =~= with_ref + "&rev="@ + rv@);
                },
                None => {},
            }
            Ok(out)
        },
    }
}

/// The ref name the older generator hands to the normalizer: the tag or
/// branch when one is given, else the default branch name `master`.
pub open spec fn legacy_ref_name(r: GitRef) -> Seq<char> {
    match r {
        GitRef::Tag(t) => t@,
        GitRef::Branch(b) => b@,
        GitRef::NotSpecified => "master"@,
        GitRef::Rev(_) => "master"@,
    }
}

/// One dependency's effect on the older generator's two pair sets, or the
/// error rejecting it. Local path dependencies are always rejected: the
/// older generator does not handle workspaces.
pub open spec fn spec_apply_dep_legacy(
    regs: Set<(Seq<char>, Seq<char>)>,
    gits: Set<(Seq<char>, Seq<char>)>,
    dep: Dependency,
) -> Result<(Set<(Seq<char>, Seq<char>)>, Set<(Seq<char>, Seq<char>)>), DepError> {
    match spec_classify(dep) {
        Err(e) => Err(e),
        Ok(src) => match src {
            DepSource::CratesIo => Ok((regs, gits)),
            DepSource::RegistryName { name } => Err(DepError::NamedRegistry { name }),
            DepSource::LocalPath { path, canon: _ } => Err(DepError::LocalPathForbidden { path }),
            DepSource::RegistryUrl { url } => match spec_normalize_legacy(
                url@,
                "master"@,
                None,
            ) {
                Ok(f) => Ok((regs.insert((url@, f)), gits)),
                Err(e) => Err(DepError::BadUrl { url, kind: e }),
            },
            DepSource::Git { url, ref_ } => match spec_normalize_legacy(
                url@,
                legacy_ref_name(ref_),
                git_rev(ref_),
            ) {
                Ok(f) => Ok((regs, gits.insert((git_source_id(url@, ref_), f)))),
                Err(e) => Err(DepError::BadUrl { url, kind: e }),
            },
        },
    }
}

/// The dependencies applied in order; the first rejection wins, annotated
/// with the dependency's name.
pub open spec fn spec_apply_deps_legacy(
    regs: Set<(Seq<char>, Seq<char>)>,
    gits: Set<(Seq<char>, Seq<char>)>,
    deps: Seq<(String, Dependency)>,
) -> Result<(Set<(Seq<char>, Seq<char>)>, Set<(Seq<char>, Seq<char>)>), Error>
    decreases deps.len(),
{
    if deps.len() == 0 {
        Ok((regs, gits))
    } else {
        match spec_apply_dep_legacy(regs, gits, deps[0].1) {
            Err(e) => Err(Error::Dep { member_dir: None, dep_name: deps[0].0, err: e }),
            Ok(sets) => spec_apply_deps_legacy(sets.0, sets.1, deps.drop_first()),
        }
    }
}

/// The older generator's whole run: `[patch]` and `[workspace]` are
/// unsupported, a `[package]` is required, and every dependency of the root
/// manifest is applied in order.
pub open spec fn spec_generate_legacy(m: Manifest) -> Result<
    (Set<(Seq<char>, Seq<char>)>, Set<(Seq<char>, Seq<char>)>),
    Error,
> {
    if m.has_patch {
        Err(Error::PatchUnsupported)
    } else if m.workspace is Some {
        Err(Error::WorkspaceUnsupported)
    } else if m.package is None {
        Err(Error::MissingPackage)
    } else {
        spec_apply_deps_legacy(
            Set::<(Seq<char>, Seq<char>)>::empty(),
            Set::<(Seq<char>, Seq<char>)>::empty(),
            all_deps_of(m),
        )
    }
}

/// The older generator's accumulated output: the crate name and the two
/// ordered sets of (source identifier, flake reference) pairs.
pub struct FlakeNixTemplate {
    /// The root package's name.
    pub crate_name: String,
    /// Registry source pairs, ordered.
    pub registries: StrPairSet,
    /// Git source pairs, ordered.
    pub git_srcs: StrPairSet,
}

impl FlakeNixTemplate {
    /// Both pair sets are well-formed ordered sets.
    pub open spec fn wf(&self) -> bool {
        self.registries.wf() && self.git_srcs.wf()
    }

    /// An empty template for the named crate.
    pub fn new(crate_name: String) -> (r: Self)
        ensures
            r.wf(),
            r.crate_name == crate_name,
            r.registries@ == Set::<(Seq<char>, Seq<char>)>::empty(),
            r.git_srcs@ == Set::<(Seq<char>, Seq<char>)>::empty(),
    {
        FlakeNixTemplate { crate_name, registries: StrPairSet::new(), git_srcs: StrPairSet::new() }
    }

    /// Record a registry source and its flake reference.
    pub fn add_registry(&mut self, source_id: String, flake_url: String) -> (r: Result<(), Error>)
        requires
            old(self).wf(),
        ensures
            final(self).wf(),
            r is Ok,
            final(self).crate_name == old(self).crate_name,
            final(self).registries@ == old(self).registries@.insert((source_id@, flake_url@)),
            final(self).git_srcs@ == old(self).git_srcs@,
    {
        self.registries.insert(source_id, flake_url);
        Ok(())
    }

    /// Record a git source and its flake reference.
    pub fn add_git_src(&mut self, source_id: String, flake_url: String) -> (r: Result<(), Error>)
        requires
            old(self).wf(),
        ensures
            final(self).wf(),
            r is Ok,
            final(self).crate_name == old(self).crate_name,
            final(self).registries@ == old(self).registries@,
            final(self).git_srcs@ == old(self).git_srcs@.insert((source_id@, flake_url@)),
    {
        self.git_srcs.insert(source_id, flake_url);
        Ok(())
    }
}

/// Run the older generator over a loaded manifest, per
/// [`spec_generate_legacy`]: collect the registry and git sources of a
/// single, non-workspace package.
#[verifier::loop_isolation(false)]
pub fn generate_flake(m: &Manifest) -> (r: Result<FlakeNixTemplate, Error>)
    ensures
        match r {
            Ok(t) => {
                &&& t.wf()
                &&& m.package matches Some(p) && t.crate_name == p.name
                &&& spec_generate_legacy(*m) matches Ok(sets) && t.registries@ == sets.0
                    && t.git_srcs@ == sets.1
            },
            Err(e) => spec_generate_legacy(*m) == Err::<
                (Set<(Seq<char>, Seq<char>)>, Set<(Seq<char>, Seq<char>)>),
                Error,
            >(e),
        },
{
    if m.has_patch {
        return Err(Error::PatchUnsupported);
    }
    match &m.workspace {
        Some(_) => {
            return Err(Error::WorkspaceUnsupported);
        },
        None => {},
    }
    let crate_name = match &m.package {
        Some(p) => p.name.clone(),
        None => {
            return Err(Error::MissingPackage);
        },
    };
    let mut t = FlakeNixTemplate::new(crate_name);
    let deps = get_all_dependencies(m);
    proof {
        assert(deps@.skip(0) =~= deps@);
    }
    let n = deps.len();
    let mut i: usize = 0;
    while i < n
        invariant
            t.wf(),
            t.crate_name == m.package->Some_0.name,
            0 <= i <= n,
            n == deps@.len(),
            spec_apply_deps_legacy(
                Set::<(Seq<char>, Seq<char>)>::empty(),
                Set::<(Seq<char>, Seq<char>)>::empty(),
                deps@,
            ) == spec_apply_deps_legacy(t.registries@, t.git_srcs@, deps@.skip(i as int)),
        decreases n - i,
    {
        proof {
            assert(deps@.skip(i as int)[0] == deps@[i as int]);
            assert(deps@.skip(i as int).drop_first() =~= deps@.skip(i as int + 1));
        }
        let src = match DepSource::try_from_dep(&deps[i].1) {
            Ok(src) => src,
            Err(e) => {
                return Err(
                    Error::Dep { member_dir: None, dep_name: deps[i].0.clone(), err: e },
                );
            },
        };
        match src {
            DepSource::CratesIo => {},
            DepSource::RegistryName { name } => {
                return Err(
                    Error::Dep {
                        member_dir: None,
                        dep_name: deps[i].0.clone(),
                        err: DepError::NamedRegistry { name },
                    },
                );
            },
            DepSource::LocalPath { path, canon: _ } => {
                return Err(
                    Error::Dep {
                        member_dir: None,
                        dep_name: deps[i].0.clone(),
                        err: DepError::LocalPathForbidden { path },
                    },
                );
            },
            DepSource::RegistryUrl { url } => {
                match git_url_to_flake_ref(url.as_str(), "master", None) {
                    Ok(f) => {
                        let res = t.add_registry(url, f);
                        match res {
                            Ok(()) => {},
                            Err(e) => {
                                return Err(e);
                            },
                        }
                    },
                    Err(e) => {
                        return Err(
                            Error::Dep {
                                member_dir: None,
                                dep_name: deps[i].0.clone(),
                                err: DepError::BadUrl { url, kind: e },
                            },
                        );
                    },
                }
            },
            DepSource::Git { url, ref_ } => {
                let norm = match &ref_ {
                    GitRef::Tag(tag) => git_url_to_flake_ref(url.as_str(), tag.as_str(), None),
                    GitRef::Branch(b) => git_url_to_flake_ref(url.as_str(), b.as_str(), None),
                    GitRef::NotSpecified => git_url_to_flake_ref(url.as_str(), "master", None),
                    GitRef::Rev(v) => git_url_to_flake_ref(
                        url.as_str(),
                        "master",
                        Some(v.as_str()),
                    ),
                };
                match norm {
                    Ok(f) => {
                        let sid = git_source_id_exec(&url, &ref_);
                        let res = t.add_git_src(sid, f);
                        match res {
                            Ok(()) => {},
                            Err(e) => {
                                return Err(e);
                            },
                        }
                    },
                    Err(e) => {
                        return Err(
                            Error::Dep {
                                member_dir: None,
                                dep_name: deps[i].0.clone(),
                                err: DepError::BadUrl { url, kind: e },
                            },
                        );
                    },
                }
            },
        }
        i = i + 1;
    }
    proof {
        assert(deps@.skip(n as int) =~= Seq::<(String, Dependency)>::empty());
    }
    Ok(t)
}

} // verus!
