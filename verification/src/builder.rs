//! The descriptor builder: walks a manifest (and, for a workspace, every
//! member's manifest), classifies every dependency, validates local path
//! dependencies against the workspace member set, and accumulates the two
//! ordered source-to-reference mappings.
//!
//! Filesystem work happens outside: the caller expands the member glob
//! patterns, canonicalizes the member directories and the local dependency
//! paths, loads every manifest, and hands the results in as plain data. Every
//! decision from there on is made here and verified: which dependencies are
//! accepted, which error rejects the build, and exactly what the two
//! mappings hold.

use vstd::prelude::*;

use crate::classify::{DepSource, GitRef, spec_classify};
use crate::errors::{DepError, Error};
use crate::flake_ref::{git_url_to_flake_ref, spec_normalize, UrlError};
use crate::manifest::{Dependency, Manifest, all_deps_of, get_all_dependencies};
use crate::products::{FsFacts, Products, spec_products};
use crate::strmap::StrMap;
use crate::strutil::str_eq;

verus! {

/// The two mappings a build accumulates: registry sources and git sources,
/// each from source identifier to flake reference.
pub type SrcMaps = (Map<Seq<char>, Seq<char>>, Map<Seq<char>, Seq<char>>);

/// The views of a run of strings.
pub open spec fn views_of(s: Seq<String>) -> Seq<Seq<char>> {
    s.map_values(|x: String| x@)
}

/// No two entries are equal.
pub open spec fn pairwise_distinct(s: Seq<Seq<char>>) -> bool {
    forall|i: int, j: int| 0 <= i < j < s.len() ==> s[i] != s[j]
}

/// The dereferenced value of an optional string reference.
pub open spec fn opt_deref(o: Option<&String>) -> Option<String> {
    match o {
        Some(s) => Some(*s),
        None => None,
    }
}

/// The ref name a git ref qualifier supplies, if any.
pub open spec fn git_ref_name(r: GitRef) -> Option<Seq<char>> {
    match r {
        GitRef::Tag(t) => Some(t@),
        GitRef::Branch(b) => Some(b@),
        GitRef::NotSpecified => None,
        GitRef::Rev(_) => None,
    }
}

/// The revision a git ref qualifier supplies, if any.
pub open spec fn git_rev(r: GitRef) -> Option<Seq<char>> {
    match r {
        GitRef::Rev(v) => Some(v@),
        _ => None,
    }
}

/// The identifier a git source is deduplicated by: the URL as written,
/// suffixed with whichever of tag/branch/rev was explicitly given.
pub open spec fn git_source_id(url: Seq<char>, r: GitRef) -> Seq<char> {
    match r {
        GitRef::NotSpecified => url,
        GitRef::Tag(t) => url + "?tag="@ + t@,
        GitRef::Branch(b) => url + "?branch="@ + b@,
        GitRef::Rev(v) => url + "?rev="@ + v@,
    }
}

/// One dependency's effect on the two mappings, or the error rejecting it.
///
/// A crates-registry dependency needs nothing. A named registry has no
/// target representation. A local path dependency is only accepted inside a
/// workspace, and only when its canonical path is a member. Registry-URL and
/// git dependencies are normalized and recorded under their source
/// identifier.
pub open spec fn spec_apply_dep(
    regs: Map<Seq<char>, Seq<char>>,
    gits: Map<Seq<char>, Seq<char>>,
    dep: Dependency,
    in_workspace: bool,
    members: Seq<Seq<char>>,
) -> Result<SrcMaps, DepError> {
    match spec_classify(dep) {
        Err(e) => Err(e),
        Ok(src) => match src {
            DepSource::CratesIo => Ok((regs, gits)),
            DepSource::RegistryName { name } => Err(DepError::NamedRegistry { name }),
            DepSource::LocalPath { path, canon } => {
                if !in_workspace {
                    Err(DepError::LocalPathForbidden { path })
                } else {
                    match canon {
                        None => Err(DepError::CanonicalizeFailed { path }),
                        Some(c) => if members.contains(c@) {
                            Ok((regs, gits))
                        } else {
                            Err(DepError::LocalPathNotMember { path })
                        },
                    }
                }
            },
            DepSource::RegistryUrl { url } => match spec_normalize(url@, None, None) {
                Ok(f) => Ok((regs.insert(url@, f), gits)),
                Err(e) => Err(DepError::BadUrl { url, kind: e }),
            },
            DepSource::Git { url, ref_ } => match spec_normalize(
                url@,
                git_ref_name(ref_),
                git_rev(ref_),
            ) {
                Ok(f) => Ok((regs, gits.insert(git_source_id(url@, ref_), f))),
                Err(e) => Err(DepError::BadUrl { url, kind: e }),
            },
        },
    }
}

/// One package's dependencies applied in order; the first rejection wins and
/// is annotated with the dependency's name and the declaring member.
pub open spec fn spec_apply_deps(
    regs: Map<Seq<char>, Seq<char>>,
    gits: Map<Seq<char>, Seq<char>>,
    deps: Seq<(String, Dependency)>,
    in_workspace: bool,
    members: Seq<Seq<char>>,
    member_dir: Option<String>,
) -> Result<SrcMaps, Error>
    decreases deps.len(),
{
    if deps.len() == 0 {
        Ok((regs, gits))
    } else {
        match spec_apply_dep(regs, gits, deps[0].1, in_workspace, members) {
            Err(e) => Err(Error::Dep { member_dir, dep_name: deps[0].0, err: e }),
            Ok(maps) => spec_apply_deps(
                maps.0,
                maps.1,
                deps.drop_first(),
                in_workspace,
                members,
                member_dir,
            ),
        }
    }
}

/// Does the `i`-th dependency name the registry index URL `k`?
pub open spec fn dep_registry_url(deps: Seq<(String, Dependency)>, i: int, k: Seq<char>) -> bool {
    spec_classify(deps[i].1) matches Ok(DepSource::RegistryUrl { url }) && url@ == k
}

/// Does the `i`-th dependency name a git source with identifier `k`?
pub open spec fn dep_git_id(deps: Seq<(String, Dependency)>, i: int, k: Seq<char>) -> bool {
    spec_classify(deps[i].1) matches Ok(DepSource::Git { url, ref_ }) && git_source_id(url@, ref_)
        == k
}

/// Does the `i`-th dependency name a git source with identifier `k` whose
/// normalized reference is `v`?
pub open spec fn dep_git_source(
    deps: Seq<(String, Dependency)>,
    i: int,
    k: Seq<char>,
    v: Seq<char>,
) -> bool {
    spec_classify(deps[i].1) matches Ok(DepSource::Git { url, ref_ }) && git_source_id(url@, ref_)
        == k && spec_normalize(url@, git_ref_name(ref_), git_rev(ref_)) == Ok::<Seq<char>, UrlError>(
        v,
    )
}

/// A successful dependency run, read declaratively: the final registry map
/// holds the initial keys and exactly the registry index URLs the
/// dependencies name, each mapped to its own normalization; the final git
/// map holds the initial keys and exactly the named git source identifiers,
/// each mapped to the normalization of a dependency that names it. Entries
/// not named by any dependency keep their initial value — so the mappings
/// are deduplicated by source identifier, and which dependency named a
/// source (or how often) does not matter.
pub proof fn lemma_apply_deps_maps(
    regs: Map<Seq<char>, Seq<char>>,
    gits: Map<Seq<char>, Seq<char>>,
    deps: Seq<(String, Dependency)>,
    in_workspace: bool,
    members: Seq<Seq<char>>,
    member_dir: Option<String>,
)
    requires
        spec_apply_deps(regs, gits, deps, in_workspace, members, member_dir) is Ok,
    ensures
        ({
            let maps = spec_apply_deps(regs, gits, deps, in_workspace, members, member_dir)->Ok_0;
            &&& forall|k: Seq<char>|
                #[trigger] maps.0.contains_key(k) <==> (regs.contains_key(k) || exists|i: int|
                    0 <= i < deps.len() && dep_registry_url(deps, i, k))
            &&& forall|k: Seq<char>|
                (#[trigger] maps.0.contains_key(k)) && (exists|i: int|
                    0 <= i < deps.len() && dep_registry_url(deps, i, k)) ==> spec_normalize(
                    k,
                    None,
                    None,
                ) == Ok::<Seq<char>, UrlError>(maps.0[k])
            &&& forall|k: Seq<char>|
                (#[trigger] maps.0.contains_key(k)) && !(exists|i: int|
                    0 <= i < deps.len() && dep_registry_url(deps, i, k)) ==> maps.0[k] == regs[k]
            &&& forall|k: Seq<char>|
                #[trigger] maps.1.contains_key(k) <==> (gits.contains_key(k) || exists|i: int|
                    0 <= i < deps.len() && dep_git_id(deps, i, k))
            &&& forall|k: Seq<char>|
                (#[trigger] maps.1.contains_key(k)) && (exists|i: int|
                    0 <= i < deps.len() && dep_git_id(deps, i, k)) ==> exists|i: int|
                    0 <= i < deps.len() && dep_git_source(deps, i, k, maps.1[k])
            &&& forall|k: Seq<char>|
                (#[trigger] maps.1.contains_key(k)) && !(exists|i: int|
                    0 <= i < deps.len() && dep_git_id(deps, i, k)) ==> maps.1[k] == gits[k]
        }),
    decreases deps.len(),
{
    if deps.len() == 0 {
    } else {
        let step = spec_apply_dep(regs, gits, deps[0].1, in_workspace, members);
        let r1 = step->Ok_0.0;
        let g1 = step->Ok_0.1;
        let rest = deps.drop_first();
        lemma_apply_deps_maps(r1, g1, rest, in_workspace, members, member_dir);
        let maps = spec_apply_deps(regs, gits, deps, in_workspace, members, member_dir)->Ok_0;
        assert(forall|i: int| 0 <= i < rest.len() ==> rest[i] == deps[i + 1]);

        // Shift witnesses between the whole run and its tail.
        assert forall|k: Seq<char>| #[trigger]
            maps.0.contains_key(k) implies (regs.contains_key(k) || exists|i: int|
            0 <= i < deps.len() && dep_registry_url(deps, i, k)) by {
            if !regs.contains_key(k) {
                if r1.contains_key(k) && !(exists|i: int|
                    0 <= i < rest.len() && dep_registry_url(rest, i, k)) {
                    assert(dep_registry_url(deps, 0, k));
                } else {
                    let i = choose|i: int| 0 <= i < rest.len() && dep_registry_url(rest, i, k);
                    if 0 <= i < rest.len() && dep_registry_url(rest, i, k) {
                        assert(dep_registry_url(deps, i + 1, k));
                    } else {
                        assert(dep_registry_url(deps, 0, k));
                    }
                }
            }
        }
        assert forall|k: Seq<char>|
            regs.contains_key(k) || (exists|i: int|
                0 <= i < deps.len() && dep_registry_url(deps, i, k)) implies #[trigger] maps.0.contains_key(
            k,
        ) by {
            if exists|i: int| 0 <= i < deps.len() && dep_registry_url(deps, i, k) {
                let i = choose|i: int| 0 <= i < deps.len() && dep_registry_url(deps, i, k);
                if i == 0 {
                    assert(r1.contains_key(k));
                } else {
                    assert(dep_registry_url(rest, i - 1, k));
                }
            } else {
                assert(r1.contains_key(k));
            }
        }
        assert forall|k: Seq<char>|
            maps.0.contains_key(k) && (exists|i: int|
                0 <= i < deps.len() && dep_registry_url(deps, i, k)) implies spec_normalize(
            k,
            None,
            None,
        ) == Ok::<Seq<char>, UrlError>(maps.0[k]) by {
            if exists|i: int| 0 <= i < rest.len() && dep_registry_url(rest, i, k) {
            } else {
                // Only the first dependency names `k`: the tail leaves its
                // value alone, and the first write is its normalization.
                let i = choose|i: int| 0 <= i < deps.len() && dep_registry_url(deps, i, k);
                if i > 0 {
                    assert(dep_registry_url(rest, i - 1, k));
                }
                assert(dep_registry_url(deps, 0, k));
                assert(maps.0[k] == r1[k]);
                match step {
                    Ok(_) => {},
                    Err(_) => {
                        assert(false);
                    },
                }
                match spec_classify(deps[0].1) {
                    Ok(DepSource::RegistryUrl { url }) => {
                        match spec_normalize(url@, None, None) {
                            Ok(f) => {
                                assert(r1 == regs.insert(url@, f));
                                assert(r1[k] == f);
                            },
                            Err(_) => {
                                assert(false);
                            },
                        }
                    },
                    _ => {
                        assert(false);
                    },
                }
            }
        }
        assert forall|k: Seq<char>|
            maps.0.contains_key(k) && !(exists|i: int|
                0 <= i < deps.len() && dep_registry_url(deps, i, k)) implies maps.0[k] == regs[k] by {
            assert(!dep_registry_url(deps, 0, k));
            assert forall|i: int| 0 <= i < rest.len() implies !dep_registry_url(rest, i, k) by {
                assert(!dep_registry_url(deps, i + 1, k));
            }
            assert(maps.0[k] == r1[k]);
        }

        assert forall|k: Seq<char>| #[trigger]
            maps.1.contains_key(k) implies (gits.contains_key(k) || exists|i: int|
            0 <= i < deps.len() && dep_git_id(deps, i, k)) by {
            if !gits.contains_key(k) {
                if g1.contains_key(k) && !(exists|i: int|
                    0 <= i < rest.len() && dep_git_id(rest, i, k)) {
                    assert(dep_git_id(deps, 0, k));
                } else {
                    let i = choose|i: int| 0 <= i < rest.len() && dep_git_id(rest, i, k);
                    if 0 <= i < rest.len() && dep_git_id(rest, i, k) {
                        assert(dep_git_id(deps, i + 1, k));
                    } else {
                        assert(dep_git_id(deps, 0, k));
                    }
                }
            }
        }
        assert forall|k: Seq<char>|
            gits.contains_key(k) || (exists|i: int|
                0 <= i < deps.len() && dep_git_id(deps, i, k)) implies #[trigger] maps.1.contains_key(
            k,
        ) by {
            if exists|i: int| 0 <= i < deps.len() && dep_git_id(deps, i, k) {
                let i = choose|i: int| 0 <= i < deps.len() && dep_git_id(deps, i, k);
                if i == 0 {
                    assert(g1.contains_key(k));
                } else {
                    assert(dep_git_id(rest, i - 1, k));
                }
            } else {
                assert(g1.contains_key(k));
            }
        }
        assert forall|k: Seq<char>|
            maps.1.contains_key(k) && (exists|i: int|
                0 <= i < deps.len() && dep_git_id(deps, i, k)) implies exists|i: int|
            0 <= i < deps.len() && dep_git_source(deps, i, k, maps.1[k]) by {
            if exists|i: int| 0 <= i < rest.len() && dep_git_id(rest, i, k) {
                let i = choose|i: int| 0 <= i < rest.len() && dep_git_source(rest, i, k, maps.1[k]);
                if 0 <= i < rest.len() && dep_git_source(rest, i, k, maps.1[k]) {
                    assert(dep_git_source(deps, i + 1, k, maps.1[k]));
                }
            } else {
                // Only the first dependency names `k`: its write survives,
                // and it is the normalization of that dependency.
                let i = choose|i: int| 0 <= i < deps.len() && dep_git_id(deps, i, k);
                if i > 0 {
                    assert(dep_git_id(rest, i - 1, k));
                }
                assert(dep_git_id(deps, 0, k));
                assert(maps.1[k] == g1[k]);
                match step {
                    Ok(_) => {},
                    Err(_) => {
                        assert(false);
                    },
                }
                match spec_classify(deps[0].1) {
                    Ok(DepSource::Git { url, ref_ }) => {
                        match spec_normalize(url@, git_ref_name(ref_), git_rev(ref_)) {
                            Ok(f) => {
                                assert(g1 == gits.insert(git_source_id(url@, ref_), f));
                                assert(git_source_id(url@, ref_) == k);
                                assert(g1[k] == f);
                                assert(dep_git_source(deps, 0, k, maps.1[k]));
                            },
                            Err(_) => {
                                assert(false);
                            },
                        }
                    },
                    _ => {
                        assert(false);
                    },
                }
            }
        }
        assert forall|k: Seq<char>|
            maps.1.contains_key(k) && !(exists|i: int|
                0 <= i < deps.len() && dep_git_id(deps, i, k)) implies maps.1[k] == gits[k] by {
            assert(!dep_git_id(deps, 0, k));
            assert forall|i: int| 0 <= i < rest.len() implies !dep_git_id(rest, i, k) by {
                assert(!dep_git_id(deps, i + 1, k));
            }
            assert(maps.1[k] == g1[k]);
        }
    }
}

/// Every workspace member's dependencies applied in member order.
pub open spec fn spec_apply_members(
    regs: Map<Seq<char>, Seq<char>>,
    gits: Map<Seq<char>, Seq<char>>,
    dirs: Seq<String>,
    mans: Seq<Manifest>,
    members: Seq<Seq<char>>,
) -> Result<SrcMaps, Error>
    recommends
        dirs.len() == mans.len(),
    decreases mans.len(),
{
    if mans.len() == 0 {
        Ok((regs, gits))
    } else {
        match spec_apply_deps(regs, gits, all_deps_of(mans[0]), true, members, Some(dirs[0])) {
            Err(e) => Err(e),
            Ok(maps) => spec_apply_members(
                maps.0,
                maps.1,
                dirs.drop_first(),
                mans.drop_first(),
                members,
            ),
        }
    }
}

/// The two mappings of a whole build, or the error rejecting it.
///
/// `[patch]` is rejected first. A workspace needs an explicit, non-empty
/// member list whose canonical directories are pairwise distinct; then every
/// member's dependencies are processed in order, and the root package's
/// last, if the manifest declares one. Outside a workspace only the root
/// manifest's dependencies are processed, with local paths rejected.
pub open spec fn spec_generate(
    m: Manifest,
    dirs: Seq<String>,
    mans: Seq<Manifest>,
    canons: Seq<String>,
) -> Result<SrcMaps, Error> {
    let members = views_of(canons);
    let empty = Map::<Seq<char>, Seq<char>>::empty();
    if m.has_patch {
        Err(Error::PatchUnsupported)
    } else {
        match m.workspace {
            Some(ws) => {
                if ws.members@.len() == 0 {
                    Err(Error::EmptyWorkspaceMembers)
                } else if !pairwise_distinct(members) {
                    Err(Error::DuplicatedWorkspaceMembers)
                } else {
                    match spec_apply_members(empty, empty, dirs, mans, members) {
                        Err(e) => Err(e),
                        Ok(maps) => if m.package is Some {
                            spec_apply_deps(maps.0, maps.1, all_deps_of(m), true, members, None)
                        } else {
                            Ok(maps)
                        },
                    }
                }
            },
            None => spec_apply_deps(empty, empty, all_deps_of(m), false, Seq::empty(), None),
        }
    }
}

/// Overlapping member patterns are rejected: whenever two members share a
/// canonical directory, the build fails with the duplicate-member error,
/// whatever the manifests hold.
/// A successful non-workspace build, read declaratively: the registry map
/// holds exactly the registry index URLs the manifest's dependencies name,
/// each mapped to its own normalization, and the git map holds exactly the
/// named git source identifiers, each mapped to the normalization of a
/// dependency that names it. In particular, a manifest none of whose
/// dependencies name an external source yields two empty mappings.
pub proof fn lemma_generate_maps(
    m: Manifest,
    dirs: Seq<String>,
    mans: Seq<Manifest>,
    canons: Seq<String>,
)
    requires
        m.workspace is None,
        spec_generate(m, dirs, mans, canons) is Ok,
    ensures
        ({
            let maps = spec_generate(m, dirs, mans, canons)->Ok_0;
            let deps = all_deps_of(m);
            &&& forall|k: Seq<char>|
                #[trigger] maps.0.contains_key(k) <==> exists|i: int|
                    0 <= i < deps.len() && dep_registry_url(deps, i, k)
            &&& forall|k: Seq<char>|
                #[trigger] maps.0.contains_key(k) ==> spec_normalize(k, None, None) == Ok::<
                    Seq<char>,
                    UrlError,
                >(maps.0[k])
            &&& forall|k: Seq<char>|
                #[trigger] maps.1.contains_key(k) <==> exists|i: int|
                    0 <= i < deps.len() && dep_git_id(deps, i, k)
            &&& forall|k: Seq<char>|
                #[trigger] maps.1.contains_key(k) ==> exists|i: int|
                    0 <= i < deps.len() && dep_git_source(deps, i, k, maps.1[k])
        }),
{
    let empty = Map::<Seq<char>, Seq<char>>::empty();
    lemma_apply_deps_maps(empty, empty, all_deps_of(m), false, Seq::empty(), None);
}

pub proof fn lemma_duplicate_members_rejected(
    m: Manifest,
    dirs: Seq<String>,
    mans: Seq<Manifest>,
    canons: Seq<String>,
)
    requires
        !m.has_patch,
        m.workspace is Some,
        m.workspace->Some_0.members@.len() > 0,
        !pairwise_distinct(views_of(canons)),
    ensures
        spec_generate(m, dirs, mans, canons) == Err::<SrcMaps, Error>(
            Error::DuplicatedWorkspaceMembers,
        ),
{
}

/// The workspace data the caller gathers before building: for each resolved
/// member, its directory as discovered, its canonical directory, and its
/// loaded manifest, in one shared order.
pub struct WorkspaceInput {
    /// The member directories, as the glob expansion produced them.
    pub member_dirs: Vec<String>,
    /// The canonical form of each member directory.
    pub member_canons: Vec<String>,
    /// Each member's loaded manifest.
    pub member_manifests: Vec<Manifest>,
}

impl WorkspaceInput {
    /// The three runs describe the same members.
    pub open spec fn wf(&self) -> bool {
        self.member_dirs@.len() == self.member_manifests@.len() && self.member_canons@.len()
            == self.member_manifests@.len()
    }
}

/// The member directories, when workspace data was given.
pub open spec fn ws_dirs(ws: Option<&WorkspaceInput>) -> Seq<String> {
    match ws {
        Some(w) => w.member_dirs@,
        None => Seq::empty(),
    }
}

/// The member manifests, when workspace data was given.
pub open spec fn ws_mans(ws: Option<&WorkspaceInput>) -> Seq<Manifest> {
    match ws {
        Some(w) => w.member_manifests@,
        None => Seq::empty(),
    }
}

/// The canonical member directories, when workspace data was given.
pub open spec fn ws_canons(ws: Option<&WorkspaceInput>) -> Seq<String> {
    match ws {
        Some(w) => w.member_canons@,
        None => Seq::empty(),
    }
}

/// The build's result: the main package (if any) with its products, the
/// workspace flag, and the two ordered source-to-reference mappings.
pub struct FlakeDescriptor {
    /// Is the manifest a workspace?
    pub is_workspace: bool,
    /// The root `[package]`'s name and product set, if one is declared.
    pub main_pkg: Option<(String, Products)>,
    /// Registry index URL -> flake reference, ascending by key.
    pub registries: StrMap,
    /// Git source identifier -> flake reference, ascending by key.
    pub git_srcs: StrMap,
}

/// Is `x` one of the strings of `v`?
fn contains_str(v: &Vec<String>, x: &str) -> (r: bool)
    ensures
        r == views_of(v@).contains(x@),
{
    let n = v.len();
    let mut i: usize = 0;
    while i < n
        invariant
            0 <= i <= n,
            n == v@.len(),
            forall|j: int| 0 <= j < i ==> views_of(v@)[j] != x@,
        decreases n - i,
    {
        if str_eq(v[i].as_str(), x) {
            assert(views_of(v@)[i as int] == x@);
            return true;
        }
        assert(views_of(v@)[i as int] == v@[i as int]@);
        i = i + 1;
    }
    proof {
        if views_of(v@).contains(x@) {
            let j = choose|j: int| 0 <= j < views_of(v@).len() && views_of(v@)[j] == x@;
            assert(views_of(v@)[j] != x@);
        }
    }
    false
}

/// Are the strings of `v` pairwise distinct?
fn check_distinct(v: &Vec<String>) -> (r: bool)
    ensures
        r == pairwise_distinct(views_of(v@)),
{
    let n = v.len();
    let mut i: usize = 0;
    while i < n
        invariant
            0 <= i <= n,
            n == v@.len(),
            forall|a: int, b: int| 0 <= a < b < n && a < i ==> views_of(v@)[a] != views_of(v@)[b],
        decreases n - i,
    {
        let mut j: usize = i + 1;
        while j < n
            invariant
                0 <= i < j <= n,
                n == v@.len(),
                forall|b: int| i < b < j ==> views_of(v@)[i as int] != views_of(v@)[b],
            decreases n - j,
        {
            if str_eq(v[i].as_str(), v[j].as_str()) {
                assert(views_of(v@)[i as int] == views_of(v@)[j as int]);
                return false;
            }
            assert(views_of(v@)[i as int] == v@[i as int]@ && views_of(v@)[j as int] == v@[j as int]@);
            j = j + 1;
        }
        i = i + 1;
    }
    true
}

/// Clones an optional string reference.
fn clone_opt_ref(o: Option<&String>) -> (r: Option<String>)
    ensures
        r == opt_deref(o),
{
    match o {
        Some(s) => Some(s.clone()),
        None => None,
    }
}

/// The source identifier of a git dependency, per [`git_source_id`].
pub(crate) fn git_source_id_exec(url: &String, r: &GitRef) -> (s: String)
    ensures
        s@ == git_source_id(url@, *r),
{
    match r {
        GitRef::NotSpecified => url.clone(),
        GitRef::Tag(t) => {
            let mut s = url.clone();
            s.append("?tag=");
            s.append(t.as_str());
            assert(s@ =~= url@ + "?tag="@ + t@);
            s
        },
        GitRef::Branch(b) => {
            let mut s = url.clone();
            s.append("?branch=");
            s.append(b.as_str());
            assert(s@ =~= url@ + "?branch="@ + b@);
            s
        },
        GitRef::Rev(v) => {
            let mut s = url.clone();
            s.append("?rev=");
            s.append(v.as_str());
            assert(s@ =~= url@ + "?rev="@ + v@);
            s
        },
    }
}

impl FlakeDescriptor {
    /// Both mappings are well-formed ordered maps.
    pub open spec fn wf(&self) -> bool {
        self.registries.wf() && self.git_srcs.wf()
    }

    /// Apply one dependency to the two mappings, per [`spec_apply_dep`]:
    /// record a registry-URL or git source, pass a crates-registry or valid
    /// local path dependency, reject anything else.
    pub fn check_dependency(&mut self, dep: &Dependency, in_workspace: bool, members: &Vec<String>)
        -> (r: Result<(), DepError>)
        requires
            old(self).wf(),
        ensures
            final(self).wf(),
            final(self).is_workspace == old(self).is_workspace,
            final(self).main_pkg == old(self).main_pkg,
            match r {
                Ok(()) => spec_apply_dep(
                    old(self).registries@,
                    old(self).git_srcs@,
                    *dep,
                    in_workspace,
                    views_of(members@),
                ) == Ok::<SrcMaps, DepError>((final(self).registries@, final(self).git_srcs@)),
                Err(e) => spec_apply_dep(
                    old(self).registries@,
                    old(self).git_srcs@,
                    *dep,
                    in_workspace,
                    views_of(members@),
                ) == Err::<SrcMaps, DepError>(e) && *final(self) == *old(self),
            },
    {
        let src = match DepSource::try_from_dep(dep) {
            Ok(src) => src,
            Err(e) => {
                return Err(e);
            },
        };
        match src {
            DepSource::CratesIo => Ok(()),
            DepSource::RegistryName { name } => Err(DepError::NamedRegistry { name }),
            DepSource::LocalPath { path, canon } => {
                if !in_workspace {
                    Err(DepError::LocalPathForbidden { path })
                } else {
                    match canon {
                        None => Err(DepError::CanonicalizeFailed { path }),
                        Some(c) => {
                            if contains_str(members, c.as_str()) {
                                Ok(())
                            } else {
                                Err(DepError::LocalPathNotMember { path })
                            }
                        },
                    }
                }
            },
            DepSource::RegistryUrl { url } => {
                match git_url_to_flake_ref(url.as_str(), None, None) {
                    Ok(f) => {
                        self.registries.insert(url, f);
                        Ok(())
                    },
                    Err(e) => Err(DepError::BadUrl { url, kind: e }),
                }
            },
            DepSource::Git { url, ref_ } => {
                let norm = match &ref_ {
                    GitRef::Tag(t) => git_url_to_flake_ref(url.as_str(), Some(t.as_str()), None),
                    GitRef::Branch(b) => git_url_to_flake_ref(
                        url.as_str(),
                        Some(b.as_str()),
                        None,
                    ),
                    GitRef::NotSpecified => git_url_to_flake_ref(url.as_str(), None, None),
                    GitRef::Rev(v) => git_url_to_flake_ref(url.as_str(), None, Some(v.as_str())),
                };
                match norm {
                    Ok(f) => {
                        let sid = git_source_id_exec(&url, &ref_);
                        self.git_srcs.insert(sid, f);
                        Ok(())
                    },
                    Err(e) => Err(DepError::BadUrl { url, kind: e }),
                }
            },
        }
    }
}

/// Apply every dependency of `deps` to the descriptor in order, per
/// [`spec_apply_deps`]: the first rejection aborts, annotated with the
/// dependency's name and `member_dir`.
#[verifier::loop_isolation(false)]
fn apply_deps(
    d: &mut FlakeDescriptor,
    deps: &Vec<(String, Dependency)>,
    in_workspace: bool,
    members: &Vec<String>,
    member_dir: Option<&String>,
) -> (r: Result<(), Error>)
    requires
        old(d).wf(),
    ensures
        final(d).wf(),
        final(d).is_workspace == old(d).is_workspace,
        final(d).main_pkg == old(d).main_pkg,
        match r {
            Ok(()) => spec_apply_deps(
                old(d).registries@,
                old(d).git_srcs@,
                deps@,
                in_workspace,
                views_of(members@),
                opt_deref(member_dir),
            ) == Ok::<SrcMaps, Error>((final(d).registries@, final(d).git_srcs@)),
            Err(e) => spec_apply_deps(
                old(d).registries@,
                old(d).git_srcs@,
                deps@,
                in_workspace,
                views_of(members@),
                opt_deref(member_dir),
            ) == Err::<SrcMaps, Error>(e),
        },
{
    proof {
        assert(deps@.skip(0) =~= deps@);
    }
    let n = deps.len();
    let mut i: usize = 0;
    while i < n
        invariant
            d.wf(),
            d.is_workspace == old(d).is_workspace,
            d.main_pkg == old(d).main_pkg,
            0 <= i <= n,
            n == deps@.len(),
            spec_apply_deps(
                old(d).registries@,
                old(d).git_srcs@,
                deps@,
                in_workspace,
                views_of(members@),
                opt_deref(member_dir),
            ) == spec_apply_deps(
                d.registries@,
                d.git_srcs@,
                deps@.skip(i as int),
                in_workspace,
                views_of(members@),
                opt_deref(member_dir),
            ),
        decreases n - i,
    {
        let ghost regs0 = d.registries@;
        let ghost gits0 = d.git_srcs@;
        let res = d.check_dependency(&deps[i].1, in_workspace, members);
        proof {
            assert(deps@.skip(i as int)[0] == deps@[i as int]);
            assert(deps@.skip(i as int).drop_first() =~= deps@.skip(i as int + 1));
        }
        match res {
            Ok(()) => {
                i = i + 1;
            },
            Err(e) => {
                let name = deps[i].0.clone();
                let md = clone_opt_ref(member_dir);
                return Err(Error::Dep { member_dir: md, dep_name: name, err: e });
            },
        }
    }
    proof {
        assert(deps@.skip(n as int) =~= Seq::<(String, Dependency)>::empty());
    }
    Ok(())
}

/// Build the flake descriptor for a loaded manifest, per [`spec_generate`]:
/// the main package's name and products, the workspace flag, and the two
/// ordered mappings, or the error that rejects the build.
///
/// `ws` carries the resolved workspace members exactly when the manifest
/// declares `[workspace]`; `fs` carries the filesystem facts product
/// discovery reads.
#[verifier::loop_isolation(false)]
pub fn generate_descriptor(m: &Manifest, fs: &FsFacts, ws: Option<&WorkspaceInput>) -> (r: Result<
    FlakeDescriptor,
    Error,
>)
    requires
        (m.workspace is Some) == (ws is Some),
        match ws {
            Some(w) => w.wf(),
            None => true,
        },
    ensures
        match r {
            Ok(d) => {
                &&& d.wf()
                &&& spec_generate(*m, ws_dirs(ws), ws_mans(ws), ws_canons(ws)) matches Ok(maps)
                    && d.registries@ == maps.0 && d.git_srcs@ == maps.1
                &&& d.is_workspace == (m.workspace is Some)
                &&& match (m.package, d.main_pkg) {
                    (Option::Some(p), Option::Some(mp)) => mp.0 == p.name && mp.1 == spec_products(
                        *m,
                        *fs,
                    ),
                    (Option::None, Option::None) => true,
                    _ => false,
                }
            },
            Err(e) => spec_generate(*m, ws_dirs(ws), ws_mans(ws), ws_canons(ws)) == Err::<
                SrcMaps,
                Error,
            >(e),
        },
{
    if m.has_patch {
        return Err(Error::PatchUnsupported);
    }
    let main_pkg = match &m.package {
        Some(p) => Some((p.name.clone(), Products::discover(m, fs))),
        None => None,
    };
    let is_workspace = match &m.workspace {
        Some(_) => true,
        None => false,
    };
    let mut d = FlakeDescriptor {
        is_workspace,
        main_pkg,
        registries: StrMap::new(),
        git_srcs: StrMap::new(),
    };
    let ghost mp0 = d.main_pkg;
    match &m.workspace {
        Some(wsd) => {
            let w = match ws {
                Some(w) => w,
                None => vstd::pervasive::unreached(),
            };
            if wsd.members.len() == 0 {
                return Err(Error::EmptyWorkspaceMembers);
            }
            if !check_distinct(&w.member_canons) {
                return Err(Error::DuplicatedWorkspaceMembers);
            }
            let ghost members = views_of(w.member_canons@);
            let ghost empty = Map::<Seq<char>, Seq<char>>::empty();
            proof {
                assert(w.member_dirs@.skip(0) =~= w.member_dirs@);
                assert(w.member_manifests@.skip(0) =~= w.member_manifests@);
            }
            let mn = w.member_manifests.len();
            let mut i: usize = 0;
            while i < mn
                invariant
                    d.wf(),
                    d.is_workspace == true,
                    d.main_pkg == mp0,
                    0 <= i <= mn,
                    mn == w.member_manifests@.len(),
                    w.wf(),
                    members == views_of(w.member_canons@),
                    empty == Map::<Seq<char>, Seq<char>>::empty(),
                    spec_apply_members(
                        empty,
                        empty,
                        w.member_dirs@,
                        w.member_manifests@,
                        members,
                    ) == spec_apply_members(
                        d.registries@,
                        d.git_srcs@,
                        w.member_dirs@.skip(i as int),
                        w.member_manifests@.skip(i as int),
                        members,
                    ),
                decreases mn - i,
            {
                let deps = get_all_dependencies(&w.member_manifests[i]);
                proof {
                    assert(w.member_dirs@.skip(i as int)[0] == w.member_dirs@[i as int]);
                    assert(w.member_manifests@.skip(i as int)[0] == w.member_manifests@[i as int]);
                    assert(w.member_dirs@.skip(i as int).drop_first() =~= w.member_dirs@.skip(
                        i as int + 1,
                    ));
                    assert(w.member_manifests@.skip(i as int).drop_first()
                        =~= w.member_manifests@.skip(i as int + 1));
                }
                let res = apply_deps(
                    &mut d,
                    &deps,
                    true,
                    &w.member_canons,
                    Some(&w.member_dirs[i]),
                );
                match res {
                    Ok(()) => {
                        i = i + 1;
                    },
                    Err(e) => {
                        return Err(e);
                    },
                }
            }
            proof {
                assert(w.member_dirs@.skip(mn as int) =~= Seq::<String>::empty());
                assert(w.member_manifests@.skip(mn as int) =~= Seq::<Manifest>::empty());
            }
            match &m.package {
                Some(_) => {
                    let deps = get_all_dependencies(m);
                    let res = apply_deps(&mut d, &deps, true, &w.member_canons, None);
                    match res {
                        Ok(()) => Ok(d),
                        Err(e) => Err(e),
                    }
                },
                None => Ok(d),
            }
        },
        None => {
            let empty_members: Vec<String> = Vec::new();
            proof {
                assert(views_of(empty_members@) =~= Seq::<Seq<char>>::empty());
            }
            let deps = get_all_dependencies(m);
            let res = apply_deps(&mut d, &deps, false, &empty_members, None);
            match res {
                Ok(()) => Ok(d),
                Err(e) => Err(e),
            }
        },
    }
}

} // verus!
