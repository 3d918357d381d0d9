use nocargo::builder::{generate_descriptor, FlakeDescriptor, WorkspaceInput};
use nocargo::classify::{DepSource, GitRef};
use nocargo::errors::{DepError, Error};
use nocargo::flake_ref::UrlError;
use nocargo::manifest::{
    get_all_dependencies, DepDetail, Dependency, Manifest, Package, TargetDeps, WorkspaceDecl,
};
use nocargo::products::{DirListing, FsFacts};

fn detail() -> DepDetail {
    DepDetail {
        registry: None,
        registry_index: None,
        path: None,
        path_canon: None,
        git: None,
        branch: None,
        tag: None,
        rev: None,
    }
}

fn package(name: &str) -> Package {
    Package {
        name: name.to_string(),
        autobins: true,
        autotests: true,
        autobenches: true,
        autoexamples: true,
    }
}

fn manifest(deps: Vec<(String, Dependency)>) -> Manifest {
    Manifest {
        package: Some(package("demo")),
        workspace: None,
        has_patch: false,
        has_lib_table: false,
        n_bin: 0,
        n_test: 0,
        n_bench: 0,
        n_example: 0,
        dependencies: deps,
        dev_dependencies: Vec::new(),
        build_dependencies: Vec::new(),
        target: Vec::new(),
    }
}

fn facts() -> FsFacts {
    FsFacts {
        lib_file: false,
        main_file: false,
        bin_dir: DirListing::Absent,
        test_dir: DirListing::Absent,
        bench_dir: DirListing::Absent,
        example_dir: DirListing::Absent,
    }
}

fn dep(name: &str, d: DepDetail) -> (String, Dependency) {
    (name.to_string(), Dependency::Detailed(d))
}

#[test]
fn test_scenario_simple_version_dep() {
    // A bare version requirement needs no external input.
    let m = manifest(vec![(
        "serde".to_string(),
        Dependency::Simple("1.0".to_string()),
    )]);
    let d = generate_descriptor(&m, &facts(), None).unwrap();
    assert!(!d.is_workspace);
    assert_eq!(d.main_pkg.as_ref().unwrap().0, "demo");
    assert_eq!(d.registries.len(), 0);
    assert_eq!(d.git_srcs.len(), 0);
}

#[test]
fn test_scenario_github_tag_dep() {
    let m = manifest(vec![dep(
        "foo",
        DepDetail {
            git: Some("https://github.com/acme/foo".to_string()),
            tag: Some("v1.0".to_string()),
            ..detail()
        },
    )]);
    let d = generate_descriptor(&m, &facts(), None).unwrap();
    assert_eq!(d.git_srcs.len(), 1);
    assert_eq!(
        d.git_srcs.get("https://github.com/acme/foo?tag=v1.0").unwrap(),
        "github:acme/foo/v1.0"
    );
}

#[test]
fn test_scenario_workspace_mutual_members() {
    // Two members reference each other by local path; both canonicalize
    // into the member set, so the build succeeds.
    let mut m = manifest(Vec::new());
    m.workspace = Some(WorkspaceDecl { members: vec!["crates/*".to_string()] });
    m.package = None;
    let a = Manifest {
        dependencies: vec![dep(
            "b",
            DepDetail {
                path: Some("../b".to_string()),
                path_canon: Some("/ws/crates/b".to_string()),
                ..detail()
            },
        )],
        ..manifest(Vec::new())
    };
    let a = Manifest { package: Some(package("a")), ..a };
    let b = Manifest {
        dependencies: vec![dep(
            "a",
            DepDetail {
                path: Some("../a".to_string()),
                path_canon: Some("/ws/crates/a".to_string()),
                ..detail()
            },
        )],
        package: Some(package("b")),
        ..manifest(Vec::new())
    };
    let ws = WorkspaceInput {
        member_dirs: vec!["crates/a".to_string(), "crates/b".to_string()],
        member_canons: vec!["/ws/crates/a".to_string(), "/ws/crates/b".to_string()],
        member_manifests: vec![a, b],
    };
    let d = generate_descriptor(&m, &facts(), Some(&ws)).unwrap();
    assert!(d.is_workspace);
    assert!(d.main_pkg.is_none());
    assert_eq!(d.registries.len(), 0);
    assert_eq!(d.git_srcs.len(), 0);
}

#[test]
fn test_scenario_local_path_outside_workspace() {
    let m = manifest(vec![dep("bar", DepDetail { path: Some("../bar".to_string()), ..detail() })]);
    match generate_descriptor(&m, &facts(), None) {
        Err(Error::Dep { member_dir, dep_name, err }) => {
            assert_eq!(member_dir, None);
            assert_eq!(dep_name, "bar");
            assert!(matches!(err, DepError::LocalPathForbidden { .. }));
        }
        other => panic!("expected rejection, got {:?}", other.map(|d| d.is_workspace)),
    }
}

#[test]
fn test_patch_rejected() {
    let mut m = manifest(Vec::new());
    m.has_patch = true;
    assert!(matches!(generate_descriptor(&m, &facts(), None), Err(Error::PatchUnsupported)));
}

#[test]
fn test_empty_workspace_members_rejected() {
    let mut m = manifest(Vec::new());
    m.workspace = Some(WorkspaceDecl { members: Vec::new() });
    let ws = WorkspaceInput {
        member_dirs: Vec::new(),
        member_canons: Vec::new(),
        member_manifests: Vec::new(),
    };
    assert!(matches!(
        generate_descriptor(&m, &facts(), Some(&ws)),
        Err(Error::EmptyWorkspaceMembers)
    ));
}

#[test]
fn test_duplicate_members_rejected() {
    // Two patterns matched the same directory: same canonical path twice.
    let mut m = manifest(Vec::new());
    m.package = None;
    m.workspace = Some(WorkspaceDecl {
        members: vec!["crates/a".to_string(), "crates/*".to_string()],
    });
    let a = Manifest { package: Some(package("a")), ..manifest(Vec::new()) };
    let a2 = Manifest { package: Some(package("a")), ..manifest(Vec::new()) };
    let ws = WorkspaceInput {
        member_dirs: vec!["crates/a".to_string(), "crates/a".to_string()],
        member_canons: vec!["/ws/crates/a".to_string(), "/ws/crates/a".to_string()],
        member_manifests: vec![a, a2],
    };
    assert!(matches!(
        generate_descriptor(&m, &facts(), Some(&ws)),
        Err(Error::DuplicatedWorkspaceMembers)
    ));
}

#[test]
fn test_local_dep_not_in_workspace() {
    let mut m = manifest(Vec::new());
    m.package = None;
    m.workspace = Some(WorkspaceDecl { members: vec!["crates/*".to_string()] });
    let a = Manifest {
        package: Some(package("a")),
        dependencies: vec![dep(
            "stray",
            DepDetail {
                path: Some("../../elsewhere".to_string()),
                path_canon: Some("/elsewhere".to_string()),
                ..detail()
            },
        )],
        ..manifest(Vec::new())
    };
    let ws = WorkspaceInput {
        member_dirs: vec!["crates/a".to_string()],
        member_canons: vec!["/ws/crates/a".to_string()],
        member_manifests: vec![a],
    };
    match generate_descriptor(&m, &facts(), Some(&ws)) {
        Err(Error::Dep { member_dir, dep_name, err }) => {
            assert_eq!(member_dir.as_deref(), Some("crates/a"));
            assert_eq!(dep_name, "stray");
            assert!(matches!(err, DepError::LocalPathNotMember { .. }));
        }
        other => panic!("expected rejection, got {:?}", other.map(|d| d.is_workspace)),
    }
}

#[test]
fn test_canonicalize_failure_propagates() {
    let mut m = manifest(Vec::new());
    m.package = None;
    m.workspace = Some(WorkspaceDecl { members: vec!["crates/*".to_string()] });
    let a = Manifest {
        package: Some(package("a")),
        dependencies: vec![dep(
            "dangling",
            DepDetail { path: Some("../missing".to_string()), path_canon: None, ..detail() },
        )],
        ..manifest(Vec::new())
    };
    let ws = WorkspaceInput {
        member_dirs: vec!["crates/a".to_string()],
        member_canons: vec!["/ws/crates/a".to_string()],
        member_manifests: vec![a],
    };
    match generate_descriptor(&m, &facts(), Some(&ws)) {
        Err(Error::Dep { err, .. }) => {
            assert!(matches!(err, DepError::CanonicalizeFailed { .. }));
        }
        other => panic!("expected rejection, got {:?}", other.map(|d| d.is_workspace)),
    }
}

#[test]
fn test_named_registry_rejected() {
    let m = manifest(vec![dep(
        "foo",
        DepDetail { registry: Some("corp".to_string()), ..detail() },
    )]);
    match generate_descriptor(&m, &facts(), None) {
        Err(Error::Dep { dep_name, err, .. }) => {
            assert_eq!(dep_name, "foo");
            assert_eq!(err, DepError::NamedRegistry { name: "corp".to_string() });
        }
        other => panic!("expected rejection, got {:?}", other.map(|d| d.is_workspace)),
    }
}

#[test]
fn test_ambiguous_source_rejected() {
    let m = manifest(vec![dep(
        "foo",
        DepDetail {
            path: Some("../foo".to_string()),
            git: Some("https://example.com/foo".to_string()),
            tag: Some("v1".to_string()),
            ..detail()
        },
    )]);
    match generate_descriptor(&m, &facts(), None) {
        Err(Error::Dep { err, .. }) => assert_eq!(err, DepError::AmbiguousSource),
        other => panic!("expected rejection, got {:?}", other.map(|d| d.is_workspace)),
    }
}

#[test]
fn test_ambiguous_git_ref_rejected() {
    let m = manifest(vec![dep(
        "foo",
        DepDetail {
            git: Some("https://example.com/foo".to_string()),
            tag: Some("v1".to_string()),
            rev: Some("beef".to_string()),
            ..detail()
        },
    )]);
    match generate_descriptor(&m, &facts(), None) {
        Err(Error::Dep { err, .. }) => assert_eq!(err, DepError::AmbiguousGitRef),
        other => panic!("expected rejection, got {:?}", other.map(|d| d.is_workspace)),
    }
}

#[test]
fn test_bad_scheme_in_git_dep() {
    let m = manifest(vec![dep(
        "foo",
        DepDetail { git: Some("ftp://example.com/foo".to_string()), ..detail() },
    )]);
    match generate_descriptor(&m, &facts(), None) {
        Err(Error::Dep { err, .. }) => {
            assert_eq!(
                err,
                DepError::BadUrl {
                    url: "ftp://example.com/foo".to_string(),
                    kind: UrlError::UnsupportedScheme,
                }
            );
        }
        other => panic!("expected rejection, got {:?}", other.map(|d| d.is_workspace)),
    }
}

#[test]
fn test_registry_url_recorded() {
    let m = manifest(vec![dep(
        "foo",
        DepDetail { registry_index: Some("https://example.com/index".to_string()), ..detail() },
    )]);
    let d = generate_descriptor(&m, &facts(), None).unwrap();
    assert_eq!(d.registries.len(), 1);
    assert_eq!(
        d.registries.get("https://example.com/index").unwrap(),
        "git+https://example.com/index"
    );
}

#[test]
fn test_git_sources_deduplicated_and_sorted() {
    // Two declarations of the same git ref collapse to one entry, and the
    // final order is ascending by source identifier.
    let m = Manifest {
        dev_dependencies: vec![dep(
            "zed",
            DepDetail {
                git: Some("https://example.com/zed".to_string()),
                branch: Some("dev".to_string()),
                ..detail()
            },
        )],
        ..manifest(vec![
            dep(
                "foo",
                DepDetail {
                    git: Some("https://github.com/acme/foo".to_string()),
                    tag: Some("v1.0".to_string()),
                    ..detail()
                },
            ),
            dep(
                "foo-again",
                DepDetail {
                    git: Some("https://github.com/acme/foo".to_string()),
                    tag: Some("v1.0".to_string()),
                    ..detail()
                },
            ),
        ])
    };
    let d = generate_descriptor(&m, &facts(), None).unwrap();
    assert_eq!(d.git_srcs.len(), 2);
    let (k0, v0) = d.git_srcs.entry_at(0);
    let (k1, v1) = d.git_srcs.entry_at(1);
    assert_eq!(k0, "https://example.com/zed?branch=dev");
    assert_eq!(v0, "git+https://example.com/zed?ref=dev");
    assert_eq!(k1, "https://github.com/acme/foo?tag=v1.0");
    assert_eq!(v1, "github:acme/foo/v1.0");
}

#[test]
fn test_first_error_wins() {
    // The first offending dependency, in declaration order, names the error.
    let m = manifest(vec![
        dep("ok", DepDetail { git: Some("https://example.com/x".to_string()), ..detail() }),
        dep("first-bad", DepDetail { registry: Some("corp".to_string()), ..detail() }),
        dep("second-bad", DepDetail { path: Some("../y".to_string()), ..detail() }),
    ]);
    match generate_descriptor(&m, &facts(), None) {
        Err(Error::Dep { dep_name, .. }) => assert_eq!(dep_name, "first-bad"),
        other => panic!("expected rejection, got {:?}", other.map(|d| d.is_workspace)),
    }
}

#[test]
fn test_all_dependencies_order() {
    let mut m = manifest(vec![("a".to_string(), Dependency::Simple("1".to_string()))]);
    m.dev_dependencies = vec![("b".to_string(), Dependency::Simple("1".to_string()))];
    m.build_dependencies = vec![("c".to_string(), Dependency::Simple("1".to_string()))];
    m.target = vec![(
        "cfg(unix)".to_string(),
        TargetDeps {
            dependencies: vec![("d".to_string(), Dependency::Simple("1".to_string()))],
            dev_dependencies: vec![("e".to_string(), Dependency::Simple("1".to_string()))],
            build_dependencies: vec![("f".to_string(), Dependency::Simple("1".to_string()))],
        },
    )];
    let all = get_all_dependencies(&m);
    let names: Vec<&str> = all.iter().map(|p| p.0.as_str()).collect();
    assert_eq!(names, vec!["a", "b", "c", "d", "e", "f"]);
}

#[test]
fn test_classify_variants() {
    let simple = Dependency::Simple("1.0".to_string());
    assert!(matches!(DepSource::try_from_dep(&simple), Ok(DepSource::CratesIo)));

    let bare = Dependency::Detailed(detail());
    assert!(matches!(DepSource::try_from_dep(&bare), Ok(DepSource::CratesIo)));

    let named = Dependency::Detailed(DepDetail { registry: Some("corp".to_string()), ..detail() });
    assert!(matches!(
        DepSource::try_from_dep(&named),
        Ok(DepSource::RegistryName { name }) if name == "corp"
    ));

    let git_branch = Dependency::Detailed(DepDetail {
        git: Some("https://example.com/g".to_string()),
        branch: Some("dev".to_string()),
        ..detail()
    });
    assert!(matches!(
        DepSource::try_from_dep(&git_branch),
        Ok(DepSource::Git { ref_: GitRef::Branch(b), .. }) if b == "dev"
    ));

    let both = Dependency::Detailed(DepDetail {
        path: Some("p".to_string()),
        git: Some("https://example.com/g".to_string()),
        ..detail()
    });
    assert!(matches!(DepSource::try_from_dep(&both), Err(DepError::AmbiguousSource)));
}

#[test]
fn test_descriptor_struct_shape() {
    let m = manifest(Vec::new());
    let d: FlakeDescriptor = generate_descriptor(&m, &facts(), None).unwrap();
    let (name, products) = d.main_pkg.unwrap();
    assert_eq!(name, "demo");
    assert!(!products.library);
}
