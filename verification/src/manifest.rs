//! A plain-data model of the package manifest.
//!
//! The builder reads manifests through this model: every field the decision
//! logic looks at is held as a plain value, so the logic itself is verified.
//! Loading and parsing the on-disk manifest file, and canonicalizing the
//! paths of local dependencies, happen outside the crate; the loader fills
//! `path_canon` with the canonical form of the resolved `path`, relative to
//! the declaring package's directory, where canonicalization succeeded.

use vstd::prelude::*;

verus! {

/// The detailed form of a dependency declaration: the recognized locator and
/// qualifier fields, each optional.
pub struct DepDetail {
    /// A named external registry.
    pub registry: Option<String>,
    /// The index URL of an external registry.
    pub registry_index: Option<String>,
    /// A local path, as written in the manifest.
    pub path: Option<String>,
    /// The canonical form of `path` resolved against the declaring package's
    /// directory; `None` when `path` is absent or canonicalization failed.
    pub path_canon: Option<String>,
    /// A git repository URL.
    pub git: Option<String>,
    /// A git branch name.
    pub branch: Option<String>,
    /// A git tag name.
    pub tag: Option<String>,
    /// A git revision.
    pub rev: Option<String>,
}

/// One dependency declaration: the short version-string form, or the
/// detailed form.
pub enum Dependency {
    /// `name = "1.0"`: a plain version requirement.
    Simple(String),
    /// `name = { ... }`: the detailed form.
    Detailed(DepDetail),
}

/// The `[package]` table: the name and the auto-discovery switches for the
/// four scannable product kinds.
pub struct Package {
    pub name: String,
    pub autobins: bool,
    pub autotests: bool,
    pub autobenches: bool,
    pub autoexamples: bool,
}

/// The `[workspace]` table: the member glob patterns, as written.
pub struct WorkspaceDecl {
    pub members: Vec<String>,
}

/// The dependency tables of one `[target.'cfg(..)']` section.
pub struct TargetDeps {
    pub dependencies: Vec<(String, Dependency)>,
    pub dev_dependencies: Vec<(String, Dependency)>,
    pub build_dependencies: Vec<(String, Dependency)>,
}

/// A loaded manifest: the tables the builder reads, as plain data.
pub struct Manifest {
    /// The `[package]` table, if declared.
    pub package: Option<Package>,
    /// The `[workspace]` table, if declared.
    pub workspace: Option<WorkspaceDecl>,
    /// Does the manifest declare a (non-empty) `[patch]` table?
    pub has_patch: bool,
    /// Does the manifest declare a `[lib]` table?
    pub has_lib_table: bool,
    /// How many `[[bin]]`, `[[test]]`, `[[bench]]`, `[[example]]` sections
    /// are declared.
    pub n_bin: usize,
    pub n_test: usize,
    pub n_bench: usize,
    pub n_example: usize,
    pub dependencies: Vec<(String, Dependency)>,
    pub dev_dependencies: Vec<(String, Dependency)>,
    pub build_dependencies: Vec<(String, Dependency)>,
    /// The per-target sections, keyed by their `cfg` expression.
    pub target: Vec<(String, TargetDeps)>,
}

/// The dependencies of the per-target sections, flattened in declaration
/// order: for each target, its plain, dev and build dependencies.
pub open spec fn target_deps_of(ts: Seq<(String, TargetDeps)>) -> Seq<(String, Dependency)>
    decreases ts.len(),
{
    if ts.len() == 0 {
        Seq::empty()
    } else {
        (ts[0].1.dependencies@ + ts[0].1.dev_dependencies@ + ts[0].1.build_dependencies@)
            + target_deps_of(ts.drop_first())
    }
}

/// Every dependency of the manifest, in a fixed order: plain, dev and build
/// dependencies, then the per-target tables.
pub open spec fn all_deps_of(m: Manifest) -> Seq<(String, Dependency)> {
    m.dependencies@ + m.dev_dependencies@ + m.build_dependencies@ + target_deps_of(m.target@)
}

fn clone_opt_string(o: &Option<String>) -> (r: Option<String>)
    ensures
        r == *o,
{
    match o {
        Some(s) => Some(s.clone()),
        None => None,
    }
}

impl Clone for DepDetail {
    fn clone(&self) -> (r: Self)
        ensures
            r == *self,
    {
        DepDetail {
            registry: clone_opt_string(&self.registry),
            registry_index: clone_opt_string(&self.registry_index),
            path: clone_opt_string(&self.path),
            path_canon: clone_opt_string(&self.path_canon),
            git: clone_opt_string(&self.git),
            branch: clone_opt_string(&self.branch),
            tag: clone_opt_string(&self.tag),
            rev: clone_opt_string(&self.rev),
        }
    }
}

impl Clone for Dependency {
    fn clone(&self) -> (r: Self)
        ensures
            r == *self,
    {
        match self {
            Dependency::Simple(s) => Dependency::Simple(s.clone()),
            Dependency::Detailed(d) => Dependency::Detailed(d.clone()),
        }
    }
}

/// Every dependency of the manifest, in the order of [`all_deps_of`].
pub fn get_all_dependencies(m: &Manifest) -> (r: Vec<(String, Dependency)>)
    ensures
        r@ == all_deps_of(*m),
{
    let mut r: Vec<(String, Dependency)> = Vec::new();
    append_deps(&mut r, &m.dependencies);
    append_deps(&mut r, &m.dev_dependencies);
    append_deps(&mut r, &m.build_dependencies);
    let ghost head = m.dependencies@ + m.dev_dependencies@ + m.build_dependencies@;
    assert(r@ =~= head);
    let tn = m.target.len();
    let mut ti: usize = 0;
    while ti < tn
        invariant
            0 <= ti <= tn,
            tn == m.target@.len(),
            r@ =~= head + target_deps_of(m.target@.take(ti as int)),
        decreases tn - ti,
    {
        let tgt = &m.target[ti].1;
        append_deps(&mut r, &tgt.dependencies);
        append_deps(&mut r, &tgt.dev_dependencies);
        append_deps(&mut r, &tgt.build_dependencies);
        proof {
            lemma_target_deps_take(m.target@, ti as int);
        }
        ti = ti + 1;
    }
    proof {
        assert(m.target@.take(tn as int) =~= m.target@);
    }
    assert(r@ =~= all_deps_of(*m));
    r
}

/// Appends clones of `src`'s entries to `dst`.
fn append_deps(dst: &mut Vec<(String, Dependency)>, src: &Vec<(String, Dependency)>)
    ensures
        final(dst)@ == old(dst)@ + src@,
{
    let n = src.len();
    let mut i: usize = 0;
    while i < n
        invariant
            0 <= i <= n,
            n == src@.len(),
            dst@ =~= old(dst)@ + src@.take(i as int),
        decreases n - i,
    {
        let p = &src[i];
        dst.push((p.0.clone(), p.1.clone()));
        proof {
            assert(old(dst)@ + src@.take(i + 1) =~= (old(dst)@ + src@.take(i as int)).push(
                src@[i as int],
            ));
        }
        i = i + 1;
    }
    assert(dst@ =~= old(dst)@ + src@);
}

/// Extending the processed prefix of the target sections by one extends the
/// flattened dependencies by that section's tables.
proof fn lemma_target_deps_take(ts: Seq<(String, TargetDeps)>, i: int)
    requires
        0 <= i < ts.len(),
    ensures
        target_deps_of(ts.take(i + 1)) == target_deps_of(ts.take(i)) + (ts[i].1.dependencies@
            + ts[i].1.dev_dependencies@ + ts[i].1.build_dependencies@),
    decreases i,
{
    let a = ts.take(i + 1);
    if i == 0 {
        assert(a.drop_first() =~= Seq::<(String, TargetDeps)>::empty());
        assert(ts.take(0) =~= Seq::<(String, TargetDeps)>::empty());
        assert(target_deps_of(a) =~= target_deps_of(ts.take(0)) + (ts[0].1.dependencies@
            + ts[0].1.dev_dependencies@ + ts[0].1.build_dependencies@));
    } else {
        lemma_target_deps_take(ts.drop_first(), i - 1);
        assert(a.drop_first() =~= ts.drop_first().take(i));
        assert(ts.take(i).drop_first() =~= ts.drop_first().take(i - 1));
        assert(ts.drop_first()[i - 1] == ts[i]);
        assert(target_deps_of(ts.take(i + 1)) =~= target_deps_of(ts.take(i)) + (
        ts[i].1.dependencies@ + ts[i].1.dev_dependencies@ + ts[i].1.build_dependencies@));
    }
}

} // verus!
