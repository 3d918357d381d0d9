use nocargo::flake_ref::{git_url_to_flake_ref, UrlError};

#[test]
fn test_flake_url_schemas() {
    let f = git_url_to_flake_ref;
    assert_eq!(
        f("https://example.com", Some("dev"), Some("123")).unwrap(),
        "git+https://example.com?rev=123"
    );
    assert_eq!(
        f("https://example.com", None, Some("123")).unwrap(),
        "git+https://example.com?rev=123"
    );
    assert_eq!(
        f("https://example.com", Some("dev"), None).unwrap(),
        "git+https://example.com?ref=dev"
    );
    assert_eq!(
        f("https://example.com", None, None).unwrap(),
        "git+https://example.com"
    );

    assert_eq!(
        f("http://example.com", None, None).unwrap(),
        "git+http://example.com"
    );
    assert_eq!(
        f("git+https://example.com", None, None).unwrap(),
        "git+https://example.com"
    );
    assert_eq!(
        f("git://example.com", None, None).unwrap(),
        "git://example.com"
    );
    assert_eq!(
        f("git+git://example.com", None, None).unwrap(),
        "git://example.com"
    );
    assert_eq!(
        f("git+ssh://git@github.com/foo/bar", None, None).unwrap(),
        "git+ssh://git@github.com/foo/bar"
    );
    f("ws://example.com", None, None).unwrap_err();
}

#[test]
fn test_flake_url_github() {
    let f = git_url_to_flake_ref;
    assert_eq!(
        f("https://github.com/foo/bar", Some("dev"), Some("123")).unwrap(),
        "github:foo/bar/123"
    );
    assert_eq!(
        f("https://github.com/foo/bar", None, Some("123")).unwrap(),
        "github:foo/bar/123"
    );
    assert_eq!(
        f("https://github.com/foo/bar", Some("dev"), None).unwrap(),
        "github:foo/bar/dev"
    );
    assert_eq!(
        f("https://github.com/foo/bar", None, None).unwrap(),
        "github:foo/bar"
    );

    assert_eq!(
        f("https://github.com/foo/bar.git", None, None).unwrap(),
        "github:foo/bar"
    );
    assert_eq!(
        f("https://github.com/foo/bar/", None, None).unwrap(),
        "github:foo/bar"
    );
    assert_eq!(
        f("http://github.com/foo/bar.git", None, None).unwrap(),
        "github:foo/bar"
    );
    assert_eq!(
        f("git+https://github.com/foo/bar.git", None, None).unwrap(),
        "github:foo/bar"
    );
}

#[test]
fn test_unsupported_scheme_error_kind() {
    assert!(matches!(
        git_url_to_flake_ref("ftp://example.com", None, None),
        Err(UrlError::UnsupportedScheme)
    ));
    assert!(matches!(
        git_url_to_flake_ref("example.com", None, None),
        Err(UrlError::UnsupportedScheme)
    ));
}

#[test]
fn test_query_fragment_rejected() {
    assert!(matches!(
        git_url_to_flake_ref("https://example.com/repo?x=1", None, None),
        Err(UrlError::QueryOrFragment)
    ));
    assert!(matches!(
        git_url_to_flake_ref("https://example.com/repo#frag", None, None),
        Err(UrlError::QueryOrFragment)
    ));
    // The GitHub shortcut itself never carries a query, so a github.com URL
    // with one is rejected like any other.
    assert!(matches!(
        git_url_to_flake_ref("https://github.com/foo/bar?x", None, None),
        Err(UrlError::QueryOrFragment)
    ));
}

#[test]
fn test_github_shapes() {
    let f = git_url_to_flake_ref;
    // Both `.git` and a trailing slash are stripped together.
    assert_eq!(f("https://github.com/a/b.git/", None, None).unwrap(), "github:a/b");
    // A third path segment is not the GitHub shortcut, and falls through to
    // the generic form.
    assert_eq!(
        f("https://github.com/a/b/c", None, None).unwrap(),
        "git+https://github.com/a/b/c"
    );
    // An empty owner or repository is not the shortcut either.
    assert_eq!(
        f("https://github.com//b", None, None).unwrap(),
        "git+https://github.com//b"
    );
    assert_eq!(
        f("https://github.com/a/", None, None).unwrap(),
        "git+https://github.com/a/"
    );
    // Stripping `.git` never leaves an empty repository name.
    assert_eq!(f("https://github.com/a/.git", None, None).unwrap(), "github:a/.git");
}

#[test]
fn test_git_scheme_prefixes() {
    let f = git_url_to_flake_ref;
    assert_eq!(
        f("git://example.com/repo", None, Some("abc")).unwrap(),
        "git://example.com/repo?rev=abc"
    );
    assert_eq!(
        f("ssh://git@example.com/repo", Some("main"), None).unwrap(),
        "git+ssh://git@example.com/repo?ref=main"
    );
}
