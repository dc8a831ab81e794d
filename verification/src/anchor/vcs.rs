//! VCS URL anchor renderer: paths as remote permalinks.
//!
//! The renderer is built from resolved [`VcsInfo`]; it maps GitHub, GitLab
//! and Bitbucket to their URL formats and other hosts to a generic
//! `blob`-style URL.
use vstd::prelude::*;

use crate::anchor::base::target_model;
use crate::anchor::{AnchorRenderer, RenderContext};
use crate::error::YankError;
use crate::fs::FileSystem;
use crate::path::{
    absolutize, join_exec, join_segs, normalize_parts, normalized, same_parts, same_path,
    strip_parts, strip_spec,
};
use crate::text::{
    chars_eq, chars_of, ends_with, first_index, first_index_exec, last_index, last_index_exec,
    lemma_first_index, lemma_last_index, slice_chars,
    starts_with, starts_with_exec, string_of, strip_suffix_exec, strip_suffix_or_self, tail,
    trim_end, trim_end_exec,
};
use crate::vcs::VcsInfo;

verus! {

// ---------------------------------------------------------------------------
// Remote URL parsing
// ---------------------------------------------------------------------------

/// `s` split around its first `c`.
pub open spec fn split_first(s: Seq<char>, c: char) -> Option<(Seq<char>, Seq<char>)> {
    match first_index(s, c) {
        Some(i) => Some((s.subrange(0, i), tail(s, i + 1))),
        None => None,
    }
}

/// The host without a port: what precedes the first `:`.
pub open spec fn host_part(h: Seq<char>) -> Seq<char> {
    match first_index(h, ':') {
        Some(i) => h.subrange(0, i),
        None => h,
    }
}

/// `(host, owner, repo)` from a host and an `owner/repo[.git][/]` path: the
/// repository is the last `/`-separated piece, the owner everything before
/// it (nested groups included).
pub open spec fn owner_repo_spec(host: Seq<char>, path: Seq<char>) -> Option<
    (Seq<char>, Seq<char>, Seq<char>),
> {
    let p = strip_suffix_or_self(trim_end(path, '/'), ".git"@);
    match last_index(p, '/') {
        Some(li) => Some((host_part(host), p.subrange(0, li), tail(p, li + 1))),
        None => None,
    }
}

/// What follows an optional `user@` in the part of an `ssh://` URL after the
/// scheme.
pub open spec fn after_user(rest: Seq<char>) -> Seq<char> {
    match first_index(rest, '@') {
        Some(i) => tail(rest, i + 1),
        None => rest,
    }
}

/// `(host, owner, repo)` of a remote URL in one of the forms
/// `git@host:owner/repo.git`, `ssh://[user@]host/owner/repo.git`,
/// `https://host/owner/repo.git` and `http://host/owner/repo.git` (the
/// `.git` suffix optional).
pub open spec fn parse_remote_spec(url: Seq<char>) -> Option<(Seq<char>, Seq<char>, Seq<char>)> {
    if starts_with(url, "git@"@) && split_first(tail(url, "git@"@.len() as int), ':') is Some {
        let hp = split_first(tail(url, "git@"@.len() as int), ':').unwrap();
        owner_repo_spec(hp.0, hp.1)
    } else if starts_with(url, "ssh://"@) && split_first(
        after_user(tail(url, "ssh://"@.len() as int)),
        '/',
    ) is Some {
        let hp = split_first(after_user(tail(url, "ssh://"@.len() as int)), '/').unwrap();
        owner_repo_spec(hp.0, hp.1)
    } else if starts_with(url, "https://"@) && split_first(
        tail(url, "https://"@.len() as int),
        '/',
    ) is Some {
        let hp = split_first(tail(url, "https://"@.len() as int), '/').unwrap();
        owner_repo_spec(hp.0, hp.1)
    } else if starts_with(url, "http://"@) && split_first(
        tail(url, "http://"@.len() as int),
        '/',
    ) is Some {
        let hp = split_first(tail(url, "http://"@.len() as int), '/').unwrap();
        owner_repo_spec(hp.0, hp.1)
    } else {
        None
    }
}

/// `s` split around its first `c`.
pub fn split_first_exec(s: &Vec<char>, c: char) -> (r: Option<(Vec<char>, Vec<char>)>)
    ensures
        match r {
            Some(p) => split_first(s@, c) == Some((p.0@, p.1@)),
            None => split_first(s@, c) is None,
        },
{
    let n = s.len();
    match first_index_exec(s.as_slice(), c) {
        Some(i) => Some((slice_chars(s.as_slice(), 0, i), slice_chars(s.as_slice(), i + 1, n))),
        None => None,
    }
}

/// `s` after the prefix `lit`, when it starts with it.
fn after_prefix(s: &Vec<char>, lit: &str) -> (r: Option<Vec<char>>)
    ensures
        match r {
            Some(v) => starts_with(s@, lit@) && v@ == tail(s@, lit@.len() as int),
            None => !starts_with(s@, lit@),
        },
{
    let p = chars_of(lit);
    if starts_with_exec(s.as_slice(), p.as_slice()) {
        Some(slice_chars(s.as_slice(), p.len(), s.len()))
    } else {
        None
    }
}

/// [`owner_repo_spec`], computed.
pub fn parse_path_to_owner_repo(host: &Vec<char>, path: &Vec<char>) -> (r: Option<
    (String, String, String),
>)
    ensures
        match r {
            Some(t) => owner_repo_spec(host@, path@) == Some((t.0@, t.1@, t.2@)),
            None => owner_repo_spec(host@, path@) is None,
        },
{
    let h = match first_index_exec(host.as_slice(), ':') {
        Some(i) => slice_chars(host.as_slice(), 0, i),
        None => host.clone(),
    };
    let trimmed = trim_end_exec(path.as_slice(), '/');
    let suffix = chars_of(".git");
    let p = strip_suffix_exec(trimmed.as_slice(), suffix.as_slice());
    let plen = p.len();
    match last_index_exec(p.as_slice(), '/') {
        Some(li) => {
            let owner = slice_chars(p.as_slice(), 0, li);
            let repo = slice_chars(p.as_slice(), li + 1, plen);
            Some((string_of(h.as_slice()), string_of(owner.as_slice()), string_of(repo.as_slice())))
        },
        None => None,
    }
}

/// [`parse_remote_spec`], computed.
pub fn parse_remote_url_inner(url: &str) -> (r: Option<(String, String, String)>)
    ensures
        match r {
            Some(t) => parse_remote_spec(url@) == Some((t.0@, t.1@, t.2@)),
            None => parse_remote_spec(url@) is None,
        },
{
    let u = chars_of(url);
    if let Some(rest) = after_prefix(&u, "git@") {
        if let Some(hp) = split_first_exec(&rest, ':') {
            return parse_path_to_owner_repo(&hp.0, &hp.1);
        }
    }
    if let Some(rest) = after_prefix(&u, "ssh://") {
        let rest2 = match first_index_exec(rest.as_slice(), '@') {
            Some(i) => slice_chars(rest.as_slice(), i + 1, rest.len()),
            None => rest.clone(),
        };
        if let Some(hp) = split_first_exec(&rest2, '/') {
            return parse_path_to_owner_repo(&hp.0, &hp.1);
        }
    }
    if let Some(rest) = after_prefix(&u, "https://") {
        if let Some(hp) = split_first_exec(&rest, '/') {
            return parse_path_to_owner_repo(&hp.0, &hp.1);
        }
    }
    if let Some(rest) = after_prefix(&u, "http://") {
        if let Some(hp) = split_first_exec(&rest, '/') {
            return parse_path_to_owner_repo(&hp.0, &hp.1);
        }
    }
    None
}

/// The message of the error for an unparseable remote URL.
pub open spec fn unparseable_message(url: Seq<char>) -> Seq<char> {
    "cannot parse remote URL: "@ + url
}

/// Parse a Git remote URL into `(host, owner, repo)`; an unparseable URL is
/// a VCS error that names it.
pub fn parse_remote_url(url: &str) -> (r: Result<(String, String, String), YankError>)
    ensures
        match parse_remote_spec(url@) {
            Some(t) => r matches Ok(x) && x.0@ == t.0 && x.1@ == t.1 && x.2@ == t.2,
            None => r matches Err(YankError::Vcs(m)) && m@ == unparseable_message(url@),
        },
{
    match parse_remote_url_inner(url) {
        Some(t) => Ok(t),
        None => {
            let mut m = String::from_str("cannot parse remote URL: ");
            m.append(url);
            Err(YankError::Vcs(m))
        },
    }
}

/// Whether `c` occurs nowhere in `s`.
pub open spec fn lacks(s: Seq<char>, c: char) -> bool {
    forall|i: int| 0 <= i < s.len() ==> s[i] != c
}

/// Splitting at the first `c` finds the `c` that follows a `c`-free prefix.
pub proof fn lemma_split_after(a: Seq<char>, c: char, b: Seq<char>)
    requires
        lacks(a, c),
    ensures
        split_first(a + seq![c] + b, c) == Some((a, b)),
{
    let s = a + seq![c] + b;
    lemma_first_index(s, c, a.len() as int);
    assert(s.subrange(0, a.len() as int) =~= a);
    assert(tail(s, a.len() as int + 1) =~= b);
}

/// `owner/repo.git` names the owner and the repository, whatever slashes
/// the owner holds (nested groups); the host is kept when it has no port.
pub proof fn lemma_owner_repo(host: Seq<char>, owner: Seq<char>, repo: Seq<char>)
    requires
        lacks(host, ':'),
        lacks(repo, '/'),
    ensures
        owner_repo_spec(host, owner + "/"@ + repo + ".git"@) == Some((host, owner, repo)),
{
    reveal_strlit("/");
    reveal_strlit(".git");
    let path = owner + "/"@ + repo + ".git"@;
    assert(path.last() == 't');
    assert(trim_end(path, '/') == path);
    assert(ends_with(path, ".git"@)) by {
        assert(path.subrange(path.len() - 4, path.len() as int) =~= ".git"@);
    }
    let p = owner + "/"@ + repo;
    assert(strip_suffix_or_self(path, ".git"@) =~= p);
    lemma_last_index(p, '/', owner.len() as int);
    assert(p.subrange(0, owner.len() as int) =~= owner);
    assert(tail(p, owner.len() as int + 1) =~= repo);
    lemma_first_index(host, ':', host.len() as int);
}

/// The schemes of a remote all read the same host and path: the SSH form
/// `git@host:<path>`, `ssh://git@host/<path>`, `https://host/<path>` and
/// `http://host/<path>`, for a host without `:`, `/` or `@`.
pub proof fn lemma_remote_url_schemes(host: Seq<char>, path: Seq<char>)
    requires
        lacks(host, ':'),
        lacks(host, '/'),
        lacks(host, '@'),
    ensures
        parse_remote_spec("git@"@ + host + ":"@ + path) == owner_repo_spec(host, path),
        parse_remote_spec("ssh://git@"@ + host + "/"@ + path) == owner_repo_spec(host, path),
        parse_remote_spec("https://"@ + host + "/"@ + path) == owner_repo_spec(host, path),
        parse_remote_spec("http://"@ + host + "/"@ + path) == owner_repo_spec(host, path),
{
    reveal_strlit("git@");
    reveal_strlit(":");
    reveal_strlit("/");
    reveal_strlit("ssh://git@");
    reveal_strlit("ssh://");
    reveal_strlit("https://");
    reveal_strlit("http://");
    // SSH form.
    let u1 = "git@"@ + host + ":"@ + path;
    assert(starts_with(u1, "git@"@)) by {
        assert(u1.subrange(0, 4) =~= "git@"@);
    }
    assert(tail(u1, 4) =~= host + seq![':'] + path);
    lemma_split_after(host, ':', path);
    // `ssh://` form.
    let u2 = "ssh://git@"@ + host + "/"@ + path;
    assert(!starts_with(u2, "git@"@)) by {
        assert(u2.subrange(0, 4)[0] == 's');
    }
    assert(starts_with(u2, "ssh://"@)) by {
        assert(u2.subrange(0, 6) =~= "ssh://"@);
    }
    let r2 = tail(u2, 6);
    assert(r2 =~= seq!['g', 'i', 't'] + seq!['@'] + (host + "/"@ + path));
    lemma_split_after(seq!['g', 'i', 't'], '@', host + "/"@ + path);
    assert(after_user(r2) =~= host + seq!['/'] + path);
    lemma_split_after(host, '/', path);
    // HTTPS form.
    let u3 = "https://"@ + host + "/"@ + path;
    assert(!starts_with(u3, "git@"@)) by {
        assert(u3.subrange(0, 4)[0] == 'h');
    }
    assert(!starts_with(u3, "ssh://"@)) by {
        assert(u3.subrange(0, 6)[0] == 'h');
    }
    assert(starts_with(u3, "https://"@)) by {
        assert(u3.subrange(0, 8) =~= "https://"@);
    }
    assert(tail(u3, 8) =~= host + seq!['/'] + path);
    // HTTP form.
    let u4 = "http://"@ + host + "/"@ + path;
    assert(!starts_with(u4, "git@"@)) by {
        assert(u4.subrange(0, 4)[0] == 'h');
    }
    assert(!starts_with(u4, "ssh://"@)) by {
        assert(u4.subrange(0, 6)[0] == 'h');
    }
    assert(!starts_with(u4, "https://"@)) by {
        assert(u4.subrange(0, 8)[4] == ':');
    }
    assert(starts_with(u4, "http://"@)) by {
        assert(u4.subrange(0, 7) =~= "http://"@);
    }
    assert(tail(u4, 7) =~= host + seq!['/'] + path);
}

/// `owner/repo` and `owner/repo/` name the owner and the repository, for a
/// repository name without `/` that does not end in `.git`.
pub proof fn lemma_owner_repo_plain(host: Seq<char>, owner: Seq<char>, repo: Seq<char>, slash: bool)
    requires
        lacks(host, ':'),
        lacks(repo, '/'),
        repo.len() > 0,
        !ends_with(repo, ".git"@),
    ensures
        owner_repo_spec(
            host,
            owner + "/"@ + repo + if slash {
                "/"@
            } else {
                Seq::empty()
            },
        ) == Some((host, owner, repo)),
{
    reveal_strlit("/");
    reveal_strlit(".git");
    let p = owner + "/"@ + repo;
    let path = p + if slash {
        "/"@
    } else {
        Seq::<char>::empty()
    };
    assert(p.last() == repo.last());
    assert(repo.last() == repo[repo.len() - 1]);
    if slash {
        assert(path.drop_last() =~= p);
        assert(path.last() == '/');
    } else {
        assert(path =~= p);
    }
    assert(trim_end(p, '/') == p);
    assert(trim_end(path, '/') == p);
    assert(!ends_with(p, ".git"@)) by {
        if ends_with(p, ".git"@) {
            let tl = p.subrange(p.len() - 4, p.len() as int);
            if repo.len() >= 4 {
                assert(repo.subrange(repo.len() - 4, repo.len() as int) =~= tl);
            } else {
                let q = 3 - repo.len();
                assert(tl[q] == p[p.len() - 4 + q]);
                assert(p[owner.len() as int] == '/');
                assert(".git"@[q] != '/');
            }
        }
    }
    assert(strip_suffix_or_self(p, ".git"@) == p);
    lemma_last_index(p, '/', owner.len() as int);
    assert(p.subrange(0, owner.len() as int) =~= owner);
    assert(tail(p, owner.len() as int + 1) =~= repo);
    lemma_first_index(host, ':', host.len() as int);
}

/// The usual spellings of one remote name the same repository: the SSH
/// form `git@host:owner/repo.git`, the `ssh://git@host/owner/repo.git`
/// form and the HTTPS and HTTP forms `https://host/owner/repo.git` all give
/// `(host, owner, repo)`, for any host without `:`, `/` or `@`, any owner,
/// and any repository name without `/`.
pub proof fn lemma_remote_url_forms(host: Seq<char>, owner: Seq<char>, repo: Seq<char>)
    requires
        lacks(host, ':'),
        lacks(host, '/'),
        lacks(host, '@'),
        lacks(repo, '/'),
    ensures
        ({
            let path = owner + "/"@ + repo + ".git"@;
            &&& parse_remote_spec("git@"@ + host + ":"@ + path) == Some((host, owner, repo))
            &&& parse_remote_spec("ssh://git@"@ + host + "/"@ + path) == Some((host, owner, repo))
            &&& parse_remote_spec("https://"@ + host + "/"@ + path) == Some((host, owner, repo))
            &&& parse_remote_spec("http://"@ + host + "/"@ + path) == Some((host, owner, repo))
        }),
{
    let path = owner + "/"@ + repo + ".git"@;
    lemma_owner_repo(host, owner, repo);
    lemma_remote_url_schemes(host, path);
}

/// The same holds without the `.git` suffix and with a trailing `/`: each
/// scheme gives `(host, owner, repo)` for `owner/repo` and `owner/repo/`,
/// when the repository name is not empty and does not itself end in
/// `.git`.
pub proof fn lemma_remote_url_forms_plain(
    host: Seq<char>,
    owner: Seq<char>,
    repo: Seq<char>,
    slash: bool,
)
    requires
        lacks(host, ':'),
        lacks(host, '/'),
        lacks(host, '@'),
        lacks(repo, '/'),
        repo.len() > 0,
        !ends_with(repo, ".git"@),
    ensures
        ({
            let path = owner + "/"@ + repo + if slash {
                "/"@
            } else {
                Seq::empty()
            };
            &&& parse_remote_spec("git@"@ + host + ":"@ + path) == Some((host, owner, repo))
            &&& parse_remote_spec("ssh://git@"@ + host + "/"@ + path) == Some((host, owner, repo))
            &&& parse_remote_spec("https://"@ + host + "/"@ + path) == Some((host, owner, repo))
            &&& parse_remote_spec("http://"@ + host + "/"@ + path) == Some((host, owner, repo))
        }),
{
    let path = owner + "/"@ + repo + if slash {
        "/"@
    } else {
        Seq::<char>::empty()
    };
    lemma_owner_repo_plain(host, owner, repo, slash);
    lemma_remote_url_schemes(host, path);
}

// ---------------------------------------------------------------------------
// URL building
// ---------------------------------------------------------------------------

/// `/<path>` for a non-empty path, nothing for the repository root.
pub open spec fn url_suffix(p: Seq<char>) -> Seq<char> {
    if p.len() == 0 {
        Seq::empty()
    } else {
        "/"@ + p
    }
}

/// The permalink for a host: GitHub `blob`, GitLab `-/blob`, Bitbucket
/// `src`, and a generic `blob` URL on the host itself otherwise.
pub open spec fn build_url_spec(
    host: Seq<char>,
    owner: Seq<char>,
    repo: Seq<char>,
    git_ref: Seq<char>,
    path: Seq<char>,
) -> Seq<char> {
    if host == "github.com"@ {
        "https://github.com/"@ + owner + "/"@ + repo + "/blob/"@ + git_ref + url_suffix(path)
    } else if host == "gitlab.com"@ {
        "https://gitlab.com/"@ + owner + "/"@ + repo + "/-/blob/"@ + git_ref + url_suffix(path)
    } else if host == "bitbucket.org"@ {
        "https://bitbucket.org/"@ + owner + "/"@ + repo + "/src/"@ + git_ref + url_suffix(path)
    } else {
        "https://"@ + host + "/"@ + owner + "/"@ + repo + "/blob/"@ + git_ref + url_suffix(path)
    }
}

fn is_host(host: &str, name: &str) -> (r: bool)
    ensures
        r == (host@ == name@),
{
    let a = chars_of(host);
    let b = chars_of(name);
    chars_eq(a.as_slice(), b.as_slice())
}

/// Build the permalink of `relative_path` at `git_ref` for the given host
/// (see [`build_url_spec`]); the repository root (empty path) links to the
/// tree root without a trailing path.
pub fn build_url(host: &str, owner: &str, repo: &str, git_ref: &str, relative_path: &str) -> (r:
    String)
    ensures
        r@ == build_url_spec(host@, owner@, repo@, git_ref@, relative_path@),
{
    let mut suffix = String::new();
    if relative_path.unicode_len() > 0 {
        suffix.append("/");
        suffix.append(relative_path);
    }
    let mut out: String;
    if is_host(host, "github.com") {
        out = String::from_str("https://github.com/");
        out.append(owner);
        out.append("/");
        out.append(repo);
        out.append("/blob/");
    } else if is_host(host, "gitlab.com") {
        out = String::from_str("https://gitlab.com/");
        out.append(owner);
        out.append("/");
        out.append(repo);
        out.append("/-/blob/");
    } else if is_host(host, "bitbucket.org") {
        out = String::from_str("https://bitbucket.org/");
        out.append(owner);
        out.append("/");
        out.append(repo);
        out.append("/src/");
    } else {
        out = String::from_str("https://");
        out.append(host);
        out.append("/");
        out.append(owner);
        out.append("/");
        out.append(repo);
        out.append("/blob/");
    }
    out.append(git_ref);
    out.append(suffix.as_str());
    assert(suffix@ =~= url_suffix(relative_path@));
    out
}

// ---------------------------------------------------------------------------
// Renderer
// ---------------------------------------------------------------------------

/// The ref used in a permalink: the commit SHA when known; otherwise, when
/// branch fallback is on, the explicit default branch, else the current
/// branch, else `main`; otherwise none.
pub open spec fn ref_spec(
    sha: Option<String>,
    branch: Option<String>,
    default_branch: Option<String>,
    fallback: bool,
) -> Option<Seq<char>> {
    match sha {
        Some(s) => Some(s@),
        None => if fallback {
            match default_branch {
                Some(d) => Some(d@),
                None => match branch {
                    Some(b) => Some(b@),
                    None => Some("main"@),
                },
            }
        } else {
            None
        },
    }
}

/// A known commit SHA is always the ref of the permalink: the default
/// branch and the fallback switch only matter when no SHA is known, and
/// without a SHA and without fallback there is no ref.
pub proof fn lemma_known_sha_is_the_ref(
    info: VcsInfo,
    default_branch: Option<String>,
    fallback: bool,
    t: Seq<char>,
    cwd: Seq<char>,
    root: Option<String>,
)
    ensures
        info.sha matches Some(s) ==> ref_spec(info.sha, info.branch, default_branch, fallback)
            == Some(s@),
        info.sha is Some ==> vcs_render_spec(info, default_branch, fallback, t, cwd, root)
            == vcs_render_spec(info, None, false, t, cwd, root),
        info.sha is None && !fallback ==> ref_spec(info.sha, info.branch, default_branch, fallback)
            is None,
{
}

/// The message when no ref can be used.
pub open spec fn no_ref_message() -> Seq<char> {
    "could not resolve commit SHA (use --vcs-branch-fallback)"@
}

/// The ref of [`ref_spec`], computed; its absence is a VCS error.
pub fn choose_ref(
    sha: &Option<String>,
    branch: &Option<String>,
    default_branch: &Option<String>,
    fallback: bool,
) -> (r: Result<String, YankError>)
    ensures
        match ref_spec(*sha, *branch, *default_branch, fallback) {
            Some(g) => r matches Ok(s) && s@ == g,
            None => r matches Err(YankError::Vcs(m)) && m@ == no_ref_message(),
        },
{
    if let Some(s) = sha {
        return Ok(s.clone());
    }
    if fallback {
        let branch = match default_branch {
            Some(d) => d.clone(),
            None => match branch {
                Some(b) => b.clone(),
                None => String::from_str("main"),
            },
        };
        return Ok(branch);
    }
    Err(YankError::Vcs(String::from_str("could not resolve commit SHA (use --vcs-branch-fallback)")))
}

/// The repo-relative path in a permalink: empty for the root itself, the
/// remaining segments below it, `None` outside.
pub open spec fn repo_path_spec(t: Seq<char>, cwd: Seq<char>, root: Seq<char>) -> Option<
    Seq<char>,
> {
    let n = target_model(t, cwd);
    let r = normalized(root);
    if same_path(n, r) {
        Some(Seq::empty())
    } else {
        match strip_spec(n, r) {
            Some(rest) => Some(join_segs(rest)),
            None => None,
        }
    }
}

/// [`repo_path_spec`], computed.
pub fn repo_path_exec(target: &str, cwd: &str, root: &str) -> (r: Option<String>)
    ensures
        match r {
            Some(s) => repo_path_spec(target@, cwd@, root@) == Some(s@),
            None => repo_path_spec(target@, cwd@, root@) is None,
        },
{
    let joined = absolutize(target, cwd);
    let n = normalize_parts(&chars_of(joined.as_str()));
    let rt = normalize_parts(&chars_of(root));
    if same_parts(&n, &rt) {
        return Some(String::new());
    }
    match strip_parts(&n, &rt) {
        Some(rest) => {
            let j = join_exec(&rest);
            Some(string_of(j.as_slice()))
        },
        None => None,
    }
}

/// The outcome of rendering `t` as a permalink: the URL, or the message of
/// the VCS error. Checks in order: a repository root, a target inside it, a
/// parseable remote URL, a usable ref.
pub open spec fn vcs_render_spec(
    info: VcsInfo,
    default_branch: Option<String>,
    fallback: bool,
    t: Seq<char>,
    cwd: Seq<char>,
    root: Option<String>,
) -> Result<Seq<char>, Seq<char>> {
    match root {
        None => Err("not in a repository"@),
        Some(rt) => match repo_path_spec(t, cwd, rt@) {
            None => Err("target outside repository"@),
            Some(p) => match parse_remote_spec(info.remote_url@) {
                None => Err(unparseable_message(info.remote_url@)),
                Some(hor) => match ref_spec(info.sha, info.branch, default_branch, fallback) {
                    None => Err(no_ref_message()),
                    Some(g) => Ok(build_url_spec(hor.0, hor.1, hor.2, g, p)),
                },
            },
        },
    }
}

/// Renderer for VCS permalinks, built from resolved metadata.
pub struct VcsRenderer {
    info: VcsInfo,
    default_branch: Option<String>,
    branch_fallback: bool,
}

impl VcsRenderer {
    /// The metadata the renderer was built from.
    pub closed spec fn info_spec(&self) -> VcsInfo {
        self.info
    }

    /// The explicit default branch.
    pub closed spec fn default_branch_spec(&self) -> Option<String> {
        self.default_branch
    }

    /// Whether a branch may stand in for a missing SHA.
    pub closed spec fn branch_fallback_spec(&self) -> bool {
        self.branch_fallback
    }

    /// Build a renderer from resolved metadata, the user's default-branch
    /// override, and whether to fall back to a branch when no SHA is known.
    pub fn new(info: VcsInfo, default_branch: Option<String>, branch_fallback: bool) -> (r: Self)
        ensures
            r.info_spec() == info,
            r.default_branch_spec() == default_branch,
            r.branch_fallback_spec() == branch_fallback,
    {
        VcsRenderer { info, default_branch, branch_fallback }
    }

    /// The ref (SHA or branch) used in the URLs.
    pub fn resolve_ref(&self) -> (r: Result<String, YankError>)
        ensures
            match ref_spec(
                self.info_spec().sha,
                self.info_spec().branch,
                self.default_branch_spec(),
                self.branch_fallback_spec(),
            ) {
                Some(g) => r matches Ok(s) && s@ == g,
                None => r matches Err(YankError::Vcs(m)) && m@ == no_ref_message(),
            },
    {
        choose_ref(&self.info.sha, &self.info.branch, &self.default_branch, self.branch_fallback)
    }
}

impl AnchorRenderer for VcsRenderer {
    /// The permalink of [`vcs_render_spec`], or the VCS error it names.
    fn render<F: FileSystem>(&self, target: &str, ctx: &RenderContext<'_, F>) -> (r: Result<
        String,
        YankError,
    >)
        ensures
            match vcs_render_spec(
                self.info_spec(),
                self.default_branch_spec(),
                self.branch_fallback_spec(),
                target@,
                ctx.cwd@,
                ctx.git_root,
            ) {
                Ok(u) => r matches Ok(s) && s@ == u,
                Err(m) => r matches Err(YankError::Vcs(e)) && e@ == m,
            },
    {
        let git_root = match &ctx.git_root {
            Some(r) => r,
            None => {
                return Err(YankError::Vcs(String::from_str("not in a repository")));
            },
        };
        let relative_path = match repo_path_exec(target, ctx.cwd.as_str(), git_root.as_str()) {
            Some(p) => p,
            None => {
                return Err(YankError::Vcs(String::from_str("target outside repository")));
            },
        };
        let (host, owner, repo) = match parse_remote_url(self.info.remote_url.as_str()) {
            Ok(t) => t,
            Err(e) => {
                return Err(e);
            },
        };
        let git_ref = match self.resolve_ref() {
            Ok(g) => g,
            Err(e) => {
                return Err(e);
            },
        };
        Ok(
            build_url(
                host.as_str(),
                owner.as_str(),
                repo.as_str(),
                git_ref.as_str(),
                relative_path.as_str(),
            ),
        )
    }
}

} // verus!
