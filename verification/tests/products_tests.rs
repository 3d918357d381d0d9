use nocargo::manifest::{Manifest, Package};
use nocargo::products::{DirListing, FsEntry, FsFacts, Products};
use nocargo::strmap::StrMap;
use nocargo::pairset::StrPairSet;
use nocargo::cli::{Args, Opt};

fn package(autobins: bool, autotests: bool) -> Package {
    Package {
        name: "demo".to_string(),
        autobins,
        autotests,
        autobenches: false,
        autoexamples: false,
    }
}

fn manifest(pkg: Package) -> Manifest {
    Manifest {
        package: Some(pkg),
        workspace: None,
        has_patch: false,
        has_lib_table: false,
        n_bin: 0,
        n_test: 0,
        n_bench: 0,
        n_example: 0,
        dependencies: Vec::new(),
        dev_dependencies: Vec::new(),
        build_dependencies: Vec::new(),
        target: Vec::new(),
    }
}

fn facts() -> FsFacts {
    FsFacts {
        lib_file: false,
        main_file: false,
        bin_dir: DirListing::Absent,
        test_dir: DirListing::Absent,
        bench_dir: DirListing::Absent,
        example_dir: DirListing::Absent,
    }
}

fn file(name: &str) -> FsEntry {
    FsEntry { name: name.to_string(), is_file: true, is_dir: false, has_main_rs: false }
}

fn dir(name: &str, has_main_rs: bool) -> FsEntry {
    FsEntry { name: name.to_string(), is_file: false, is_dir: true, has_main_rs }
}

#[test]
fn test_products_explicit_declaration_wins() {
    let mut m = manifest(package(false, false));
    m.n_bin = 1;
    let p = Products::discover(&m, &facts());
    // Declared explicitly: present even with auto-discovery disabled and no
    // files on disk.
    assert!(p.binary);
    assert!(!p.test);
}

#[test]
fn test_products_auto_discovery_disabled() {
    let mut f = facts();
    f.main_file = true;
    f.bin_dir = DirListing::Present(vec![file("tool.rs")]);
    let p = Products::discover(&manifest(package(false, false)), &f);
    // Auto-discovery off and nothing declared: absent despite the files.
    assert!(!p.binary);
}

#[test]
fn test_products_single_file_discovery() {
    let mut f = facts();
    f.main_file = true;
    let p = Products::discover(&manifest(package(true, false)), &f);
    assert!(p.binary);
}

#[test]
fn test_products_directory_scan() {
    let mut f = facts();
    f.test_dir = DirListing::Present(vec![file("notes.txt"), file("suite.rs")]);
    let p = Products::discover(&manifest(package(false, true)), &f);
    // A `.rs` file in the conventional directory witnesses the kind.
    assert!(p.test);

    let mut f2 = facts();
    f2.test_dir = DirListing::Present(vec![file("notes.txt")]);
    let p2 = Products::discover(&manifest(package(false, true)), &f2);
    assert!(!p2.test);

    let mut f3 = facts();
    f3.test_dir = DirListing::Present(vec![dir("integration", true)]);
    let p3 = Products::discover(&manifest(package(false, true)), &f3);
    // A subdirectory with a `main.rs` witnesses it too.
    assert!(p3.test);

    let mut f4 = facts();
    f4.test_dir = DirListing::Present(vec![dir("fixtures", false)]);
    let p4 = Products::discover(&manifest(package(false, true)), &f4);
    assert!(!p4.test);
}

#[test]
fn test_products_absent_directory_is_absent_product() {
    let p = Products::discover(&manifest(package(true, true)), &facts());
    assert!(!p.binary);
    assert!(!p.test);
    assert!(!p.bench);
    assert!(!p.example);
}

#[test]
fn test_products_library() {
    let mut m = manifest(package(false, false));
    m.has_lib_table = true;
    assert!(Products::discover(&m, &facts()).library);

    let mut f = facts();
    f.lib_file = true;
    assert!(Products::discover(&manifest(package(false, false)), &f).library);
}

#[test]
fn test_strmap_sorted_and_last_wins() {
    let mut m = StrMap::new();
    m.insert("beta".to_string(), "1".to_string());
    m.insert("alpha".to_string(), "2".to_string());
    m.insert("gamma".to_string(), "3".to_string());
    m.insert("beta".to_string(), "4".to_string());
    assert_eq!(m.len(), 3);
    let (k0, v0) = m.entry_at(0);
    assert_eq!((k0.as_str(), v0.as_str()), ("alpha", "2"));
    let (k1, v1) = m.entry_at(1);
    assert_eq!((k1.as_str(), v1.as_str()), ("beta", "4"));
    let (k2, v2) = m.entry_at(2);
    assert_eq!((k2.as_str(), v2.as_str()), ("gamma", "3"));
    assert_eq!(m.get("beta").unwrap(), "4");
    assert!(m.get("delta").is_none());
}

#[test]
fn test_pairset_sorted_and_deduplicated() {
    let mut s = StrPairSet::new();
    s.insert("b".to_string(), "1".to_string());
    s.insert("a".to_string(), "2".to_string());
    s.insert("a".to_string(), "1".to_string());
    s.insert("b".to_string(), "1".to_string());
    assert_eq!(s.len(), 3);
    let (k0, v0) = s.entry_at(0);
    assert_eq!((k0.as_str(), v0.as_str()), ("a", "1"));
    let (k1, v1) = s.entry_at(1);
    assert_eq!((k1.as_str(), v1.as_str()), ("a", "2"));
    let (k2, v2) = s.entry_at(2);
    assert_eq!((k2.as_str(), v2.as_str()), ("b", "1"));
    assert!(s.contains_pair("a", "2"));
    assert!(!s.contains_pair("a", "3"));
}

#[test]
fn test_cli_decisions() {
    let args = Args { print: false, force: false, root: None };
    assert!(args.output_allowed(false));
    assert!(!args.output_allowed(true));
    let args = Args { print: true, force: false, root: None };
    assert!(args.output_allowed(true));
    let args = Args { print: false, force: true, root: None };
    assert!(args.output_allowed(true));

    let args = Args { print: false, force: false, root: None };
    assert!(args.wants_ancestor_check(false));
    assert!(!args.wants_ancestor_check(true));
    let args = Args { print: false, force: false, root: Some(".".to_string()) };
    assert!(!args.wants_ancestor_check(false));

    let opt = Opt { print: false, force: false, path: ".".to_string() };
    assert!(opt.output_allowed(false));
    assert!(!opt.output_allowed(true));
}
