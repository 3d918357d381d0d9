//! Which product kinds (library, binary, test, bench, example) a package
//! builds.
//!
//! A kind is present when the manifest declares it explicitly; otherwise,
//! when auto-discovery for the kind is enabled, the conventional filesystem
//! layout decides: a conventional single entry file, or a conventional
//! directory holding either a `.rs` source file or a subdirectory with a
//! `main.rs`. The filesystem answers arrive here as plain data, gathered by
//! the caller: a missing conventional directory is simply `Absent`, while
//! other read failures abort the caller before this logic runs.

use vstd::prelude::*;

use crate::manifest::Manifest;
use crate::strutil::str_ends_with;

verus! {

/// One entry of a conventional product directory.
pub struct FsEntry {
    /// The entry's file name.
    pub name: String,
    /// Is it a regular file?
    pub is_file: bool,
    /// Is it a directory?
    pub is_dir: bool,
    /// For a directory: does it hold a `main.rs` file?
    pub has_main_rs: bool,
}

/// A conventional product directory: absent, or its entries.
pub enum DirListing {
    /// The directory does not exist; the product kind is simply absent.
    Absent,
    /// The directory's entries.
    Present(Vec<FsEntry>),
}

/// The filesystem facts product discovery reads, all relative to the
/// package directory.
pub struct FsFacts {
    /// Does `src/lib.rs` exist?
    pub lib_file: bool,
    /// Does `src/main.rs` exist?
    pub main_file: bool,
    /// The entries of `src/bin`.
    pub bin_dir: DirListing,
    /// The entries of `tests`.
    pub test_dir: DirListing,
    /// The entries of `benches`.
    pub bench_dir: DirListing,
    /// The entries of `examples`.
    pub example_dir: DirListing,
}

/// Which product kinds the package builds.
#[derive(Debug, Clone, Copy, PartialEq, Eq, Structural)]
pub struct Products {
    pub library: bool,
    pub binary: bool,
    pub bench: bool,
    pub test: bool,
    pub example: bool,
}

/// Does one directory entry witness the product kind: a `.rs` file, or a
/// subdirectory holding a `main.rs`?
pub open spec fn entry_hit(e: FsEntry) -> bool {
    (e.is_file && ".rs"@.is_suffix_of(e.name@)) || (e.is_dir && e.has_main_rs)
}

/// Does the conventional directory witness the product kind?
pub open spec fn listing_hit(l: DirListing) -> bool {
    match l {
        DirListing::Absent => false,
        DirListing::Present(es) => exists|i: int| 0 <= i < es@.len() && #[trigger] entry_hit(es@[i]),
    }
}

/// Is the product kind present: declared explicitly, or, with auto-discovery
/// enabled, witnessed by its conventional single file or directory?
pub open spec fn product_present(n_decls: int, auto: bool, single_file: bool, l: DirListing) -> bool {
    if n_decls > 0 {
        true
    } else if !auto {
        false
    } else if single_file {
        true
    } else {
        listing_hit(l)
    }
}

/// The product set of a manifest with a `[package]` table, given the
/// filesystem facts.
pub open spec fn spec_products(m: Manifest, fs: FsFacts) -> Products
    recommends
        m.package is Some,
{
    let pkg = m.package->Some_0;
    Products {
        library: m.has_lib_table || fs.lib_file,
        binary: product_present(m.n_bin as int, pkg.autobins, fs.main_file, fs.bin_dir),
        bench: product_present(m.n_bench as int, pkg.autobenches, false, fs.bench_dir),
        test: product_present(m.n_test as int, pkg.autotests, false, fs.test_dir),
        example: product_present(m.n_example as int, pkg.autoexamples, false, fs.example_dir),
    }
}

/// A single witnessing entry makes the listing a hit.
proof fn lemma_listing_hit_witness(l: DirListing, i: int)
    requires
        l is Present,
        0 <= i < l->Present_0@.len(),
        entry_hit(l->Present_0@[i]),
    ensures
        listing_hit(l),
{
}

/// Does the conventional directory witness the product kind?
fn listing_hit_exec(l: &DirListing) -> (r: bool)
    ensures
        r == listing_hit(*l),
{
    match l {
        DirListing::Absent => false,
        DirListing::Present(es) => {
            let n = es.len();
            let mut i: usize = 0;
            while i < n
                invariant
                    *l == DirListing::Present(*es),
                    0 <= i <= n,
                    n == es@.len(),
                    forall|j: int| 0 <= j < i ==> !entry_hit(#[trigger] es@[j]),
                decreases n - i,
            {
                let e = &es[i];
                if e.is_file && str_ends_with(e.name.as_str(), ".rs") {
                    proof {
                        lemma_listing_hit_witness(*l, i as int);
                    }
                    return true;
                }
                if e.is_dir && e.has_main_rs {
                    proof {
                        lemma_listing_hit_witness(*l, i as int);
                    }
                    return true;
                }
                i = i + 1;
            }
            false
        },
    }
}

/// Is the product kind present, per [`product_present`]?
fn product_present_exec(n_decls: usize, auto: bool, single_file: bool, l: &DirListing) -> (r: bool)
    ensures
        r == product_present(n_decls as int, auto, single_file, *l),
{
    if n_decls > 0 {
        true
    } else if !auto {
        false
    } else if single_file {
        true
    } else {
        listing_hit_exec(l)
    }
}

impl Products {
    /// The product set of a manifest with a `[package]` table, given the
    /// filesystem facts.
    pub fn discover(m: &Manifest, fs: &FsFacts) -> (r: Products)
        requires
            m.package is Some,
        ensures
            r == spec_products(*m, *fs),
    {
        let pkg = match &m.package {
            Some(p) => p,
            None => vstd::pervasive::unreached(),
        };
        Products {
            library: m.has_lib_table || fs.lib_file,
            binary: product_present_exec(m.n_bin, pkg.autobins, fs.main_file, &fs.bin_dir),
            bench: product_present_exec(m.n_bench, pkg.autobenches, false, &fs.bench_dir),
            test: product_present_exec(m.n_test, pkg.autotests, false, &fs.test_dir),
            example: product_present_exec(m.n_example, pkg.autoexamples, false, &fs.example_dir),
        }
    }
}

} // verus!
