//! Normalization of git and registry URLs into canonical flake references.
//!
//! A dependency's git URL (optionally qualified by a ref name or a revision)
//! is rewritten into the reference syntax a Nix-style build tool consumes:
//! a `github:owner/repo[/rev-or-ref]` shortcut for GitHub HTTP(S) URLs, and
//! otherwise the URL itself, prefixed with `git+` (except for `git://`, whose
//! scheme already marks it as a git source) and suffixed with `?rev=` or
//! `?ref=`. A revision always wins over a simultaneously supplied ref name.
//!
//! Only the `http`, `https`, `ssh` and `git` schemes are accepted, and a URL
//! that already carries a query or fragment cannot be composed with the
//! appended qualifier, so it is rejected unless the GitHub shortcut applies.

use vstd::prelude::*;

use crate::strutil::{first_index_of, lemma_first_index_of, str_contains_char, str_ends_with,
    str_find_char, str_starts_with};

verus! {

/// Why a URL was rejected by the normalizer.
#[derive(Debug, Clone, Copy, PartialEq, Eq)]
pub enum UrlError {
    /// The URL's scheme is none of `http`, `https`, `ssh`, `git`.
    UnsupportedScheme,
    /// The URL contains a literal `?` or `#` and is not a GitHub shortcut.
    QueryOrFragment,
}

/// The views of an optional string argument.
pub open spec fn opt_view(o: Option<&str>) -> Option<Seq<char>> {
    match o {
        Some(s) => Some(s@),
        None => None,
    }
}

/// The URL with one leading `git+` marker removed, if present.
pub open spec fn strip_git_plus(s: Seq<char>) -> Seq<char> {
    if "git+"@.is_prefix_of(s) {
        s.skip("git+"@.len() as int)
    } else {
        s
    }
}

/// Does the (already stripped) URL start with an accepted scheme?
pub open spec fn has_supported_scheme(s: Seq<char>) -> bool {
    ||| "http://"@.is_prefix_of(s)
    ||| "https://"@.is_prefix_of(s)
    ||| "ssh://"@.is_prefix_of(s)
    ||| "git://"@.is_prefix_of(s)
}

/// A nonempty run of characters free of `/`, `?` and `#`: the shape of a
/// GitHub owner or repository name inside a URL path.
pub open spec fn plain_segment(s: Seq<char>) -> bool {
    s.len() > 0 && forall|i: int|
        0 <= i < s.len() ==> s[i] != '/' && s[i] != '?' && s[i] != '#'
}

/// The repository segment with one trailing `.git` removed, unless removing
/// it would leave the segment empty.
pub open spec fn strip_dot_git(t: Seq<char>) -> Seq<char> {
    if t.len() > ".git"@.len() && ".git"@.is_suffix_of(t) {
        t.take(t.len() - ".git"@.len())
    } else {
        t
    }
}

/// Owner and repository extracted from what follows `github.com/`, if that
/// remainder has the shape `owner/repo[.git][/]`.
pub open spec fn github_rest(rest: Seq<char>) -> Option<(Seq<char>, Seq<char>)> {
    let t = if rest.len() > 0 && rest.last() == '/' {
        rest.drop_last()
    } else {
        rest
    };
    match first_index_of(t, '/') {
        Some(i) => {
            let owner = t.take(i);
            let tail = t.skip(i + 1);
            if plain_segment(owner) && plain_segment(tail) {
                Some((owner, strip_dot_git(tail)))
            } else {
                None
            }
        },
        None => None,
    }
}

/// Owner and repository of a GitHub HTTP(S) URL, if the (stripped) URL has
/// the shape `http[s]://github.com/owner/repo[.git][/]`.
pub open spec fn github_match(u: Seq<char>) -> Option<(Seq<char>, Seq<char>)> {
    if "http://github.com/"@.is_prefix_of(u) {
        github_rest(u.skip("http://github.com/"@.len() as int))
    } else if "https://github.com/"@.is_prefix_of(u) {
        github_rest(u.skip("https://github.com/"@.len() as int))
    } else {
        None
    }
}

/// The canonical flake reference for `url` qualified by an optional ref name
/// and an optional revision, or the error that rejects it.
pub open spec fn spec_normalize(
    url: Seq<char>,
    ref_name: Option<Seq<char>>,
    rev: Option<Seq<char>>,
) -> Result<Seq<char>, UrlError> {
    let u = strip_git_plus(url);
    if !has_supported_scheme(u) {
        Err(UrlError::UnsupportedScheme)
    } else {
        match github_match(u) {
            Some((owner, repo)) => {
                let base = "github:"@ + owner + "/"@ + repo;
                Ok(
                    match rev {
                        Some(rv) => base + "/"@ + rv,
                        None => match ref_name {
                            Some(rf) => base + "/"@ + rf,
                            None => base,
                        },
                    },
                )
            },
            None => {
                if u.contains('?') || u.contains('#') {
                    Err(UrlError::QueryOrFragment)
                } else {
                    let prefix = if "git://"@.is_prefix_of(u) {
                        Seq::<char>::empty()
                    } else {
                        "git+"@
                    };
                    Ok(
                        match rev {
                            Some(rv) => prefix + u + "?rev="@ + rv,
                            None => match ref_name {
                                Some(rf) => prefix + u + "?ref="@ + rf,
                                None => prefix + u,
                            },
                        },
                    )
                }
            },
        }
    }
}

/// Stripping a leading `git+` marker is idempotent: adding one marker to a
/// URL that carries none and normalizing gives the same reference as
/// normalizing the bare URL, whatever ref name and revision are supplied.
pub proof fn lemma_normalize_strip_idempotent(
    url: Seq<char>,
    ref_name: Option<Seq<char>>,
    rev: Option<Seq<char>>,
)
    requires
        !"git+"@.is_prefix_of(url),
    ensures
        spec_normalize("git+"@ + url, ref_name, rev) == spec_normalize(url, ref_name, rev),
{
    assert("git+"@.is_prefix_of("git+"@ + url)) by {
        assert(("git+"@ + url).subrange(0, "git+"@.len() as int) =~= "git+"@);
    }
    assert(("git+"@ + url).skip("git+"@.len() as int) =~= url);
}

/// What follows `github.com/` in a well-shaped GitHub URL — `owner/repo`,
/// optionally suffixed with `.git` and/or a trailing slash — yields exactly
/// that owner and repository.
#[verifier::rlimit(50)]
proof fn lemma_github_rest_form(owner: Seq<char>, repo: Seq<char>, dot_git: bool, slash: bool)
    requires
        plain_segment(owner),
        plain_segment(repo),
        !(repo.len() > ".git"@.len() && ".git"@.is_suffix_of(repo)),
    ensures
        ({
            let rest = owner + "/"@ + repo + (if dot_git {
                ".git"@
            } else {
                Seq::<char>::empty()
            }) + (if slash {
                "/"@
            } else {
                Seq::<char>::empty()
            });
            github_rest(rest) == Some((owner, repo))
        }),
{
    reveal_strlit(".git");
    reveal_strlit("/");
    let dg = if dot_git {
        ".git"@
    } else {
        Seq::<char>::empty()
    };
    let sl = if slash {
        "/"@
    } else {
        Seq::<char>::empty()
    };
    let rest = owner + "/"@ + repo + dg + sl;

    // Dropping the optional trailing slash leaves `owner/repo[.git]`.
    let t0 = owner + "/"@ + repo + dg;
    if slash {
        assert(rest.last() == '/');
        assert(rest.drop_last() =~= t0);
    } else {
        assert(rest.last() != '/') by {
            if dot_git {
                assert(rest.last() == ".git"@[3]);
            } else {
                assert(rest.last() == repo[repo.len() - 1]);
            }
        }
    }
    let t = if rest.len() > 0 && rest.last() == '/' {
        rest.drop_last()
    } else {
        rest
    };
    assert(t =~= t0);

    // The first slash separates the owner from the rest.
    let k = owner.len() as int;
    assert(t[k] == '/');
    assert(forall|j: int| 0 <= j < k ==> t[j] == owner[j]);
    lemma_first_index_of(t, '/');
    assert(first_index_of(t, '/') == Some(k)) by {
        match first_index_of(t, '/') {
            Some(i) => {
                if i < k {
                    assert(t[i] == owner[i]);
                } else if i > k {
                    assert(t[k] == '/');
                }
            },
            None => {
                assert(t[k] == '/');
            },
        }
    }
    assert(t.take(k) =~= owner);
    let tail = t.skip(k + 1);
    assert(tail =~= repo + dg);
    assert(plain_segment(tail)) by {
        assert(forall|i: int|
            0 <= i < tail.len() ==> tail[i] == (if i < repo.len() {
                repo[i]
            } else {
                dg[i - repo.len()]
            }));
    }

    // The optional `.git` marker is stripped, and only it.
    if dot_git {
        assert(".git"@.is_suffix_of(tail)) by {
            assert(tail.subrange(tail.len() - 4, tail.len() as int) =~= ".git"@);
        }
        assert(tail.take(tail.len() - ".git"@.len()) =~= repo);
    }
    assert(strip_dot_git(tail) == repo);
}

/// Every GitHub HTTP(S) URL of the shape `http[s]://github.com/OWNER/REPO`,
/// optionally suffixed with `.git` and/or a trailing slash, normalizes to
/// `github:OWNER/REPO`, extended by the revision if one is given, else by the
/// ref name if one is given: a revision always wins over a ref name.
///
/// A repository segment that itself ends in `.git` (and is longer than that
/// suffix) is excluded: there the suffix is taken for the optional `.git`
/// marker and stripped.
#[verifier::rlimit(50)]
pub proof fn lemma_github_form(
    owner: Seq<char>,
    repo: Seq<char>,
    https: bool,
    dot_git: bool,
    slash: bool,
    ref_name: Option<Seq<char>>,
    rev: Option<Seq<char>>,
)
    requires
        plain_segment(owner),
        plain_segment(repo),
        !(repo.len() > ".git"@.len() && ".git"@.is_suffix_of(repo)),
    ensures
        ({
            let scheme = if https {
                "https://"@
            } else {
                "http://"@
            };
            let url = scheme + "github.com/"@ + owner + "/"@ + repo + (if dot_git {
                ".git"@
            } else {
                Seq::<char>::empty()
            }) + (if slash {
                "/"@
            } else {
                Seq::<char>::empty()
            });
            let base = "github:"@ + owner + "/"@ + repo;
            spec_normalize(url, ref_name, rev) == Ok::<Seq<char>, UrlError>(
                match rev {
                    Some(rv) => base + "/"@ + rv,
                    None => match ref_name {
                        Some(rf) => base + "/"@ + rf,
                        None => base,
                    },
                },
            )
        }),
{
    reveal_strlit("git+");
    reveal_strlit("http://");
    reveal_strlit("https://");
    reveal_strlit("github.com/");
    reveal_strlit("http://github.com/");
    reveal_strlit("https://github.com/");
    reveal_strlit(".git");
    reveal_strlit("/");
    let scheme = if https {
        "https://"@
    } else {
        "http://"@
    };
    let dg = if dot_git {
        ".git"@
    } else {
        Seq::<char>::empty()
    };
    let sl = if slash {
        "/"@
    } else {
        Seq::<char>::empty()
    };
    let url = scheme + "github.com/"@ + owner + "/"@ + repo + dg + sl;

    // No `git+` marker to strip: the URL starts with an `h`.
    assert(url[0] == 'h');
    assert(!"git+"@.is_prefix_of(url)) by {
        if "git+"@.is_prefix_of(url) {
            assert(url.subrange(0, "git+"@.len() as int)[0] == url[0]);
        }
    }
    assert(strip_git_plus(url) == url);

    // The scheme is accepted, and the GitHub prefix matches.
    let ghp = if https {
        "https://github.com/"@
    } else {
        "http://github.com/"@
    };
    assert(ghp =~= scheme + "github.com/"@);
    assert(ghp.is_prefix_of(url)) by {
        assert(url.subrange(0, ghp.len() as int) =~= ghp);
    }
    assert(has_supported_scheme(url)) by {
        assert(url.subrange(0, scheme.len() as int) =~= scheme);
    }
    if https {
        assert(!"http://github.com/"@.is_prefix_of(url)) by {
            if "http://github.com/"@.is_prefix_of(url) {
                assert(url.subrange(0, "http://github.com/"@.len() as int)[4] == url[4]);
                assert(url[4] == "https://"@[4]);
            }
        }
    }
    let rest = url.skip(ghp.len() as int);
    assert(rest =~= owner + "/"@ + repo + dg + sl);
    lemma_github_rest_form(owner, repo, dot_git, slash);
    assert(github_rest(rest) == Some((owner, repo)));
    assert(github_match(url) == Some((owner, repo)));
}

/// A URL that contains a literal `?` or `#` and does not match the GitHub
/// shortcut is always rejected.
pub proof fn lemma_query_or_fragment_rejected(
    url: Seq<char>,
    ref_name: Option<Seq<char>>,
    rev: Option<Seq<char>>,
)
    requires
        github_match(strip_git_plus(url)) is None,
        url.contains('?') || url.contains('#'),
    ensures
        spec_normalize(url, ref_name, rev) is Err,
{
    let u = strip_git_plus(url);
    if has_supported_scheme(u) {
        reveal_strlit("git+");
        let c = if url.contains('?') {
            '?'
        } else {
            '#'
        };
        let i = choose|i: int| 0 <= i < url.len() && url[i] == c;
        if "git+"@.is_prefix_of(url) {
            assert(url[i] == c);
            if i < "git+"@.len() {
                assert(url.subrange(0, "git+"@.len() as int)[i] == url[i]);
                assert(false);
            } else {
                assert(u[i - "git+"@.len()] == url[i]);
            }
        } else {
            assert(u[i] == c);
        }
        assert(u.contains(c));
    }
}

/// The reference for a `git://` URL never carries a `git+` prefix; for every
/// other accepted scheme outside the GitHub shortcut it always does; and a
/// GitHub shortcut reference always starts with `github:`.
pub proof fn lemma_reference_prefix(
    url: Seq<char>,
    ref_name: Option<Seq<char>>,
    rev: Option<Seq<char>>,
)
    ensures
        ({
            let u = strip_git_plus(url);
            match spec_normalize(url, ref_name, rev) {
                Ok(r) => {
                    &&& "git://"@.is_prefix_of(u) ==> !"git+"@.is_prefix_of(r)
                    &&& (github_match(u) is None && !"git://"@.is_prefix_of(u))
                        ==> "git+"@.is_prefix_of(r)
                    &&& github_match(u) is Some ==> "github:"@.is_prefix_of(r)
                },
                Err(_) => true,
            }
        }),
{
    reveal_strlit("git+");
    reveal_strlit("git://");
    reveal_strlit("github:");
    let u = strip_git_plus(url);
    match spec_normalize(url, ref_name, rev) {
        Ok(r) => {
            match github_match(u) {
                Some(pair) => {
                    let base = "github:"@ + pair.0 + "/"@ + pair.1;
                    assert("github:"@.is_prefix_of(r)) by {
                        assert(r.subrange(0, "github:"@.len() as int) =~= "github:"@);
                    }
                    assert(r[3] == 'h');
                    assert(!"git+"@.is_prefix_of(r)) by {
                        if "git+"@.is_prefix_of(r) {
                            assert(r.subrange(0, "git+"@.len() as int)[3] == r[3]);
                        }
                    }
                },
                None => {
                    if "git://"@.is_prefix_of(u) {
                        assert(u.subrange(0, "git://"@.len() as int)[3] == u[3]);
                        assert(r[3] == u[3]);
                        assert(!"git+"@.is_prefix_of(r)) by {
                            if "git+"@.is_prefix_of(r) {
                                assert(r.subrange(0, "git+"@.len() as int)[3] == r[3]);
                            }
                        }
                    } else {
                        assert("git+"@.is_prefix_of(r)) by {
                            assert(r.subrange(0, "git+"@.len() as int) =~= "git+"@);
                        }
                    }
                },
            }
        },
        Err(_) => {},
    }
}

/// Is `s` a nonempty run of characters free of `/`, `?` and `#`?
fn segment_ok(s: &str) -> (r: bool)
    ensures
        r == plain_segment(s@),
{
    let n: usize = s.unicode_len();
    if n == 0 {
        return false;
    }
    let mut i: usize = 0;
    while i < n
        invariant
            0 < n == s@.len(),
            0 <= i <= n,
            forall|k: int| 0 <= k < i ==> s@[k] != '/' && s@[k] != '?' && s@[k] != '#',
        decreases n - i,
    {
        let c = s.get_char(i);
        if c == '/' || c == '?' || c == '#' {
            return false;
        }
        i = i + 1;
    }
    true
}

/// Owner and repository of what follows `github.com/`, per [`github_rest`].
fn github_rest_exec(rest: &str) -> (r: Option<(String, String)>)
    ensures
        match r {
            Some(pair) => github_rest(rest@) == Some((pair.0@, pair.1@)),
            None => github_rest(rest@) is None,
        },
{
    let rn: usize = rest.unicode_len();
    let t: &str = if rn > 0 && rest.get_char(rn - 1) == '/' {
        let t0 = rest.substring_char(0, rn - 1);
        proof {
            assert(t0@ =~= rest@.drop_last());
        }
        t0
    } else {
        rest
    };
    let tn: usize = t.unicode_len();
    match str_find_char(t, '/') {
        None => None,
        Some(i) => {
            proof {
                lemma_first_index_of(t@, '/');
            }
            let owner = t.substring_char(0, i);
            let tail = t.substring_char(i + 1, tn);
            proof {
                assert(owner@ =~= t@.take(i as int));
                assert(tail@ =~= t@.skip(i as int + 1));
            }
            if !segment_ok(owner) || !segment_ok(tail) {
                return None;
            }
            let tailn: usize = tail.unicode_len();
            let repo: &str = if tailn > 4 && str_ends_with(tail, ".git") {
                proof {
                    reveal_strlit(".git");
                }
                let rp = tail.substring_char(0, tailn - 4);
                proof {
                    assert(rp@ =~= tail@.take(tail@.len() - ".git"@.len()));
                }
                rp
            } else {
                proof {
                    reveal_strlit(".git");
                }
                tail
            };
            assert(repo@ == strip_dot_git(t@.skip(i as int + 1)));
            Some((owner.to_owned(), repo.to_owned()))
        },
    }
}

/// Owner and repository of a GitHub HTTP(S) URL, per [`github_match`].
pub(crate) fn github_match_exec(u: &str) -> (r: Option<(String, String)>)
    ensures
        match r {
            Some(pair) => github_match(u@) == Some((pair.0@, pair.1@)),
            None => github_match(u@) is None,
        },
{
    let n: usize = u.unicode_len();
    if str_starts_with(u, "http://github.com/") {
        proof {
            reveal_strlit("http://github.com/");
        }
        let rest = u.substring_char(18, n);
        proof {
            assert(rest@ =~= u@.skip("http://github.com/"@.len() as int));
        }
        github_rest_exec(rest)
    } else if str_starts_with(u, "https://github.com/") {
        proof {
            reveal_strlit("https://github.com/");
        }
        let rest = u.substring_char(19, n);
        proof {
            assert(rest@ =~= u@.skip("https://github.com/"@.len() as int));
        }
        github_rest_exec(rest)
    } else {
        None
    }
}

/// Rewrite a git or registry URL, with an optional ref name and an optional
/// revision, into its canonical flake reference.
pub fn git_url_to_flake_ref(url_orig: &str, ref_name: Option<&str>, rev: Option<&str>) -> (r:
    Result<String, UrlError>)
    ensures
        match r {
            Ok(s) => spec_normalize(url_orig@, opt_view(ref_name), opt_view(rev)) == Ok::<
                Seq<char>,
                UrlError,
            >(s@),
            Err(e) => spec_normalize(url_orig@, opt_view(ref_name), opt_view(rev)) == Err::<
                Seq<char>,
                UrlError,
            >(e),
        },
{
    let n: usize = url_orig.unicode_len();
    let url: &str = if str_starts_with(url_orig, "git+") {
        proof {
            reveal_strlit("git+");
        }
        let u0 = url_orig.substring_char(4, n);
        proof {
            assert(u0@ =~= url_orig@.skip("git+"@.len() as int));
        }
        u0
    } else {
        url_orig
    };
    let ghost u: Seq<char> = strip_git_plus(url_orig@);
    assert(url@ == u);

    if !(str_starts_with(url, "http://") || str_starts_with(url, "https://") || str_starts_with(
        url,
        "ssh://",
    ) || str_starts_with(url, "git://")) {
        return Err(UrlError::UnsupportedScheme);
    }

    match github_match_exec(url) {
        Some(pair) => {
            let (owner, repo) = pair;
            let mut out = String::new();
            out.append("github:");
            out.append(owner.as_str());
            out.append("/");
            out.append(repo.as_str());
            let ghost base: Seq<char> = "github:"@ + owner@ + "/"@ + repo@;
            assert(out@ =~= base);
            match rev {
                Some(rv) => {
                    out.append("/");
                    out.append(rv);
                    assert(out@ =~= base + "/"@ + rv@);
                },
                None => match ref_name {
                    Some(rf) => {
                        out.append("/");
                        out.append(rf);
                        assert(out@ =~= base + "/"@ + rf@);
                    },
                    None => {},
                },
            }
            Ok(out)
        },
        None => {
            if str_contains_char(url, '?') || str_contains_char(url, '#') {
                return Err(UrlError::QueryOrFragment);
            }
            let mut out = String::new();
            if !str_starts_with(url, "git://") {
                out.append("git+");
            }
            out.append(url);
            let ghost prefix: Seq<char> = if "git://"@.is_prefix_of(u) {
                Seq::<char>::empty()
            } else {
                "git+"@
            };
            assert(out@ =~= prefix + u);
            match rev {
                Some(rv) => {
                    out.append("?rev=");
                    out.append(rv);
                    assert(out@ =~= prefix + u + "?rev="@ + rv@);
                },
                None => match ref_name {
                    Some(rf) => {
                        out.append("?ref=");
                        out.append(rf);
                        assert(out@ =~= prefix + u + "?ref="@ + rf@);
                    },
                    None => {},
                },
            }
            Ok(out)
        },
    }
}

} // verus!
