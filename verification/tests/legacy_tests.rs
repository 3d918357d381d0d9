use nocargo::errors::{DepError, Error};
use nocargo::legacy::{generate_flake, git_url_to_flake_ref};
use nocargo::manifest::{DepDetail, Dependency, Manifest, Package, WorkspaceDecl};

fn detail() -> DepDetail {
    DepDetail {
        registry: None,
        registry_index: None,
        path: None,
        path_canon: None,
        git: None,
        branch: None,
        tag: None,
        rev: None,
    }
}

fn package(name: &str) -> Package {
    Package {
        name: name.to_string(),
        autobins: true,
        autotests: true,
        autobenches: true,
        autoexamples: true,
    }
}

fn manifest(deps: Vec<(String, Dependency)>) -> Manifest {
    Manifest {
        package: Some(package("demo")),
        workspace: None,
        has_patch: false,
        has_lib_table: false,
        n_bin: 0,
        n_test: 0,
        n_bench: 0,
        n_example: 0,
        dependencies: deps,
        dev_dependencies: Vec::new(),
        build_dependencies: Vec::new(),
        target: Vec::new(),
    }
}

#[test]
fn test_flake_url() {
    let f = git_url_to_flake_ref;
    // Schemas.
    assert_eq!(f("https://example.com", "ref", None).unwrap(), "git+https://example.com?ref=ref");
    assert_eq!(f("https://example.com", "ref", Some("123")).unwrap(), "git+https://example.com?ref=ref&rev=123");
    assert_eq!(f("git://example.com", "ref", None).unwrap(), "git://example.com?ref=ref");
    assert_eq!(f("git+git://example.com", "ref", None).unwrap(), "git://example.com?ref=ref");
    assert_eq!(f("git+ssh://git@github.com/foo/bar", "ref", None).unwrap(), "git+ssh://git@github.com/foo/bar?ref=ref");

    // GitHub.
    assert_eq!(f("https://github.com/foo/bar", "ref", None).unwrap(), "github:foo/bar/ref");
    assert_eq!(f("https://github.com/foo/bar", "ref", Some("123")).unwrap(), "github:foo/bar/123");
    assert_eq!(f("https://github.com/foo/bar.git", "ref", Some("123")).unwrap(), "github:foo/bar/123");
    assert_eq!(f("https://github.com/foo/bar/", "ref", Some("123")).unwrap(), "github:foo/bar/123");
    assert_eq!(f("http://github.com/foo/bar.git", "ref", Some("123")).unwrap(), "github:foo/bar/123");
    assert_eq!(f("git+https://github.com/foo/bar.git", "ref", Some("123")).unwrap(), "github:foo/bar/123");
}

#[test]
fn test_legacy_generate_simple() {
    let m = manifest(vec![(
        "serde".to_string(),
        Dependency::Simple("1.0".to_string()),
    )]);
    let t = generate_flake(&m).unwrap();
    assert_eq!(t.crate_name, "demo");
    assert_eq!(t.registries.len(), 0);
    assert_eq!(t.git_srcs.len(), 0);
}

#[test]
fn test_legacy_generate_git_default_branch() {
    let m = manifest(vec![(
        "foo".to_string(),
        Dependency::Detailed(DepDetail {
            git: Some("https://example.com/foo".to_string()),
            ..detail()
        }),
    )]);
    let t = generate_flake(&m).unwrap();
    assert_eq!(t.git_srcs.len(), 1);
    // No explicit ref: the default branch name is substituted.
    assert!(t.git_srcs.contains_pair(
        "https://example.com/foo",
        "git+https://example.com/foo?ref=master"
    ));
}

#[test]
fn test_legacy_generate_rev_keeps_ref() {
    let m = manifest(vec![(
        "foo".to_string(),
        Dependency::Detailed(DepDetail {
            git: Some("https://example.com/foo".to_string()),
            rev: Some("beef".to_string()),
            ..detail()
        }),
    )]);
    let t = generate_flake(&m).unwrap();
    assert!(t.git_srcs.contains_pair(
        "https://example.com/foo?rev=beef",
        "git+https://example.com/foo?ref=master&rev=beef"
    ));
}

#[test]
fn test_legacy_generate_registry_url() {
    let m = manifest(vec![(
        "foo".to_string(),
        Dependency::Detailed(DepDetail {
            registry_index: Some("https://example.com/index".to_string()),
            ..detail()
        }),
    )]);
    let t = generate_flake(&m).unwrap();
    assert_eq!(t.registries.len(), 1);
    assert!(t.registries.contains_pair(
        "https://example.com/index",
        "git+https://example.com/index?ref=master"
    ));
}

#[test]
fn test_legacy_missing_package() {
    let mut m = manifest(Vec::new());
    m.package = None;
    assert!(matches!(generate_flake(&m), Err(Error::MissingPackage)));
}

#[test]
fn test_legacy_workspace_unsupported() {
    let mut m = manifest(Vec::new());
    m.workspace = Some(WorkspaceDecl { members: vec!["crates/*".to_string()] });
    assert!(matches!(generate_flake(&m), Err(Error::WorkspaceUnsupported)));
}

#[test]
fn test_legacy_local_path_rejected() {
    let m = manifest(vec![(
        "bar".to_string(),
        Dependency::Detailed(DepDetail { path: Some("../bar".to_string()), ..detail() }),
    )]);
    match generate_flake(&m) {
        Err(Error::Dep { member_dir, dep_name, err }) => {
            assert_eq!(member_dir, None);
            assert_eq!(dep_name, "bar");
            assert!(matches!(err, DepError::LocalPathForbidden { .. }));
        }
        other => panic!("expected a local-path rejection, got {:?}", other.map(|t| t.crate_name)),
    }
}
