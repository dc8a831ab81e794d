use std::cell::RefCell;
use std::collections::HashSet;
use std::path::{Path, PathBuf};

use yank_path::anchor::vcs::{build_url, parse_remote_url, VcsRenderer};
use yank_path::vcs::{
    check_ahead_of_remote, check_has_upstream, ls_remote_step, parse_git_config,
    parse_head, parse_ls_remote_output, remote_ref_path, resolve_ref, vcs_info_from_files,
    FakeRemoteVerifier, FakeVcsInfoProvider, LsRemotePoll, LsRemoteStep,
};
use yank_path::{
    AnchorRenderer, FileSystem, RemoteVerifier, RenderContext, VcsInfo, VcsInfoProvider,
    VerifyOutcome, YankError,
};

/// In-memory filesystem for the renderer tests.
struct MockFileSystem {
    cwd: String,
    existing: RefCell<HashSet<PathBuf>>,
}

impl MockFileSystem {
    fn new(cwd: &str) -> Self {
        MockFileSystem { cwd: cwd.to_string(), existing: RefCell::new(HashSet::new()) }
    }
}

impl FileSystem for MockFileSystem {
    fn cwd(&self) -> Result<String, YankError> {
        Ok(self.cwd.clone())
    }
    fn home(&self) -> Option<String> {
        None
    }
    fn path_exists(&self, path: &str) -> bool {
        self.existing.borrow().contains(Path::new(path))
    }
    fn canonicalize(&self, path: &str) -> Result<String, YankError> {
        if self.existing.borrow().contains(Path::new(path)) {
            Ok(path.to_string())
        } else {
            Err(YankError::NotFound(path.to_string()))
        }
    }
    fn is_dir(&self, _path: &str) -> bool {
        false
    }
    fn is_file(&self, path: &str) -> bool {
        self.existing.borrow().contains(Path::new(path))
    }
}

fn make_info(remote_url: &str, sha: Option<&str>, branch: Option<&str>) -> VcsInfo {
    VcsInfo {
        remote_url: remote_url.to_string(),
        sha: sha.map(|s| s.to_string()),
        branch: branch.map(|s| s.to_string()),
        detached: sha.is_some() && branch.is_none(),
        has_upstream: true,
        ahead_of_remote: false,
    }
}

fn ctx<'a>(cwd: &str, git_root: Option<&str>, fs: &'a MockFileSystem) -> RenderContext<'a, MockFileSystem> {
    RenderContext {
        cwd: cwd.to_string(),
        home: None,
        git_root: git_root.map(|g| g.to_string()),
        fs,
    }
}

fn owner_repo(url: &str) -> (String, String, String) {
    parse_remote_url(url).unwrap()
}

// ---------------------------------------------------------------------------
// Remote URL parsing
// ---------------------------------------------------------------------------

#[test]
fn parses_ssh_url() {
    let (host, owner, repo) = owner_repo("git@github.com:user/repo.git");
    assert_eq!(host, "github.com");
    assert_eq!(owner, "user");
    assert_eq!(repo, "repo");
}

#[test]
fn parses_ssh_url_without_git_suffix() {
    let (host, owner, repo) = owner_repo("git@github.com:user/repo");
    assert_eq!(host, "github.com");
    assert_eq!(owner, "user");
    assert_eq!(repo, "repo");
}

#[test]
fn parses_https_url() {
    let (host, owner, repo) = owner_repo("https://github.com/user/repo.git");
    assert_eq!(host, "github.com");
    assert_eq!(owner, "user");
    assert_eq!(repo, "repo");
}

#[test]
fn parses_https_url_without_git_suffix() {
    let (host, owner, repo) = owner_repo("https://github.com/user/repo");
    assert_eq!(host, "github.com");
    assert_eq!(owner, "user");
    assert_eq!(repo, "repo");
}

#[test]
fn parses_ssh_scheme_url() {
    let (host, owner, repo) = owner_repo("ssh://git@github.com/user/repo.git");
    assert_eq!(host, "github.com");
    assert_eq!(owner, "user");
    assert_eq!(repo, "repo");
}

#[test]
fn parses_gitlab_nested_group() {
    let (host, owner, repo) = owner_repo("git@gitlab.com:org/group/subgroup/repo.git");
    assert_eq!(host, "gitlab.com");
    assert_eq!(owner, "org/group/subgroup");
    assert_eq!(repo, "repo");
}

#[test]
fn unparseable_url_returns_error() {
    let err = parse_remote_url("not-a-valid-url").unwrap_err();
    assert!(matches!(err, YankError::Vcs(msg) if msg.contains("cannot parse")));
}

// ---------------------------------------------------------------------------
// URL building
// ---------------------------------------------------------------------------

#[test]
fn builds_github_url_with_sha() {
    let url = build_url("github.com", "user", "repo", "abc123", "src/main.rs");
    assert_eq!(url, "https://github.com/user/repo/blob/abc123/src/main.rs");
}

#[test]
fn builds_github_url_for_repo_root() {
    let url = build_url("github.com", "user", "repo", "abc123", "");
    assert_eq!(url, "https://github.com/user/repo/blob/abc123");
}

#[test]
fn builds_gitlab_url() {
    let url = build_url("gitlab.com", "user", "repo", "abc123", "src/lib.rs");
    assert_eq!(url, "https://gitlab.com/user/repo/-/blob/abc123/src/lib.rs");
}

#[test]
fn builds_bitbucket_url() {
    let url = build_url("bitbucket.org", "user", "repo", "abc123", "README.md");
    assert_eq!(url, "https://bitbucket.org/user/repo/src/abc123/README.md");
}

#[test]
fn builds_generic_url_for_unknown_host() {
    let url = build_url("git.example.com", "user", "repo", "abc123", "file.txt");
    assert_eq!(url, "https://git.example.com/user/repo/blob/abc123/file.txt");
}

// ---------------------------------------------------------------------------
// Renderer
// ---------------------------------------------------------------------------

#[test]
fn renders_file_with_sha() {
    let fs = MockFileSystem::new("/home/u/repo");
    let info = make_info(
        "git@github.com:user/repo.git",
        Some("abc1234567890123456789012345678901234567"),
        Some("main"),
    );
    let renderer = VcsRenderer::new(info, None, false);
    let url = renderer.render("src/lib.rs", &ctx("/home/u/repo", Some("/home/u/repo"), &fs)).unwrap();
    assert_eq!(
        url,
        "https://github.com/user/repo/blob/abc1234567890123456789012345678901234567/src/lib.rs"
    );
}

#[test]
fn renders_repo_root() {
    let fs = MockFileSystem::new("/home/u/repo");
    let info = make_info(
        "git@github.com:user/repo.git",
        Some("abc1234567890123456789012345678901234567"),
        Some("main"),
    );
    let renderer = VcsRenderer::new(info, None, false);
    let url = renderer.render(".", &ctx("/home/u/repo", Some("/home/u/repo"), &fs)).unwrap();
    assert_eq!(url, "https://github.com/user/repo/blob/abc1234567890123456789012345678901234567");
}

#[test]
fn branch_fallback_when_no_sha() {
    let fs = MockFileSystem::new("/home/u/repo");
    let info = make_info("git@github.com:user/repo.git", None, Some("develop"));
    let renderer = VcsRenderer::new(info, None, true);
    let url = renderer.render("file.txt", &ctx("/home/u/repo", Some("/home/u/repo"), &fs)).unwrap();
    assert_eq!(url, "https://github.com/user/repo/blob/develop/file.txt");
}

#[test]
fn default_branch_override() {
    let fs = MockFileSystem::new("/home/u/repo");
    let info = make_info("git@github.com:user/repo.git", None, Some("develop"));
    let renderer = VcsRenderer::new(info, Some("master".to_string()), true);
    let url = renderer.render("file.txt", &ctx("/home/u/repo", Some("/home/u/repo"), &fs)).unwrap();
    // The explicit default branch wins over the current branch.
    assert_eq!(url, "https://github.com/user/repo/blob/master/file.txt");
}

#[test]
fn error_when_no_sha_and_no_fallback() {
    let fs = MockFileSystem::new("/home/u/repo");
    let info = make_info("git@github.com:user/repo.git", None, Some("main"));
    let renderer = VcsRenderer::new(info, None, false);
    let err = renderer.render("file.txt", &ctx("/home/u/repo", Some("/home/u/repo"), &fs)).unwrap_err();
    assert!(matches!(err, YankError::Vcs(msg) if msg.contains("--vcs-branch-fallback")));
}

#[test]
fn error_when_no_git_root() {
    let fs = MockFileSystem::new("/home/u/proj");
    let info = make_info("git@github.com:user/repo.git", Some("abc123"), Some("main"));
    let renderer = VcsRenderer::new(info, None, false);
    let err = renderer.render("file.txt", &ctx("/home/u/proj", None, &fs)).unwrap_err();
    assert!(matches!(err, YankError::Vcs(msg) if msg.contains("not in a repository")));
}

#[test]
fn error_when_target_outside_repo() {
    let fs = MockFileSystem::new("/home/u/repo");
    let info = make_info("git@github.com:user/repo.git", Some("abc123"), Some("main"));
    let renderer = VcsRenderer::new(info, None, false);
    let err = renderer.render("/etc/passwd", &ctx("/home/u/repo", Some("/home/u/repo"), &fs)).unwrap_err();
    assert!(matches!(err, YankError::Vcs(msg) if msg.contains("outside repository")));
}

#[test]
fn handles_subdirectory_cwd() {
    let fs = MockFileSystem::new("/home/u/repo/src");
    let info = make_info("git@github.com:user/repo.git", Some("abc123"), Some("main"));
    let renderer = VcsRenderer::new(info, None, false);
    let url = renderer.render("lib.rs", &ctx("/home/u/repo/src", Some("/home/u/repo"), &fs)).unwrap();
    assert_eq!(url, "https://github.com/user/repo/blob/abc123/src/lib.rs");
}

// ---------------------------------------------------------------------------
// `git ls-remote` output
// ---------------------------------------------------------------------------

#[test]
fn ls_remote_sha_present() {
    let output = "abc1234567890123456789012345678901234567\trefs/heads/main\n\
                  def0000000000000000000000000000000000000\trefs/heads/develop\n";
    let result = parse_ls_remote_output(output, "abc1234567890123456789012345678901234567");
    assert_eq!(result, VerifyOutcome::Present);
}

#[test]
fn ls_remote_sha_absent() {
    let output = "abc1234567890123456789012345678901234567\trefs/heads/main\n";
    let result = parse_ls_remote_output(output, "0000000000000000000000000000000000000000");
    assert_eq!(result, VerifyOutcome::Absent);
}

#[test]
fn ls_remote_branch_present_with_refs_heads() {
    let output = "abc1234567890123456789012345678901234567\trefs/heads/main\n\
                  def0000000000000000000000000000000000000\trefs/heads/develop\n";
    let result = parse_ls_remote_output(output, "develop");
    assert_eq!(result, VerifyOutcome::Present);
}

#[test]
fn ls_remote_branch_absent() {
    let output = "abc1234567890123456789012345678901234567\trefs/heads/main\n";
    let result = parse_ls_remote_output(output, "feature-xyz");
    assert_eq!(result, VerifyOutcome::Absent);
}

#[test]
fn ls_remote_empty_output_is_unverified() {
    let result = parse_ls_remote_output("", "main");
    assert_eq!(result, VerifyOutcome::Unverified("empty response".to_string()));
}

#[test]
fn ls_remote_whitespace_only_is_unverified() {
    let result = parse_ls_remote_output("   \n  \t  \n", "main");
    assert_eq!(result, VerifyOutcome::Unverified("empty response".to_string()));
}

#[test]
fn ls_remote_sha_present_in_tags() {
    // A commit id may appear under any ref, not only branches.
    let output = "abc1234567890123456789012345678901234567\trefs/tags/v1.0.0\n";
    let result = parse_ls_remote_output(output, "abc1234567890123456789012345678901234567");
    assert_eq!(result, VerifyOutcome::Present);
}

#[test]
fn ls_remote_branch_bare_name_match() {
    // Some servers list bare branch names.
    let output = "abc1234567890123456789012345678901234567\tmain\n";
    let result = parse_ls_remote_output(output, "main");
    assert_eq!(result, VerifyOutcome::Present);
}

#[test]
fn ls_remote_line_with_one_field_is_skipped() {
    let output = "main\nabc1234567890123456789012345678901234567\trefs/heads/dev\n";
    assert_eq!(parse_ls_remote_output(output, "main"), VerifyOutcome::Absent);
}

#[test]
fn ls_remote_crlf_lines_are_trimmed() {
    let output = "abc1234567890123456789012345678901234567\trefs/heads/main\r\n";
    assert_eq!(parse_ls_remote_output(output, "main"), VerifyOutcome::Present);
}

// ---------------------------------------------------------------------------
// Remote check decisions
// ---------------------------------------------------------------------------

#[test]
fn ls_remote_step_covers_each_poll() {
    match ls_remote_step(LsRemotePoll::SpawnFailed, "main") {
        LsRemoteStep::Finish(VerifyOutcome::Unverified(m)) => assert_eq!(m, "git not available"),
        _ => panic!("spawn failure"),
    }
    match ls_remote_step(LsRemotePoll::WaitFailed, "main") {
        LsRemoteStep::Finish(VerifyOutcome::Unverified(m)) => assert_eq!(m, "git ls-remote failed"),
        _ => panic!("wait failure"),
    }
    match ls_remote_step(LsRemotePoll::Exited { success: false, output: String::new() }, "main") {
        LsRemoteStep::Finish(VerifyOutcome::Unverified(m)) => assert_eq!(m, "git ls-remote failed"),
        _ => panic!("failed exit"),
    }
    let listing = "abc1234567890123456789012345678901234567\trefs/heads/main\n".to_string();
    match ls_remote_step(LsRemotePoll::Exited { success: true, output: listing }, "main") {
        LsRemoteStep::Finish(VerifyOutcome::Present) => {}
        _ => panic!("listing with the branch"),
    }
    match ls_remote_step(LsRemotePoll::Running { past_deadline: false }, "main") {
        LsRemoteStep::Sleep => {}
        _ => panic!("still running"),
    }
    match ls_remote_step(LsRemotePoll::Running { past_deadline: true }, "main") {
        LsRemoteStep::KillAndFinish(VerifyOutcome::Unverified(m)) => assert_eq!(m, "timed out"),
        _ => panic!("deadline"),
    }
}

// ---------------------------------------------------------------------------
// `.git` files
// ---------------------------------------------------------------------------

const SHA: &str = "abc1234567890123456789012345678901234567";

const CONFIG_WITH_UPSTREAM: &str = "\n[remote \"origin\"]\n    url = git@github.com:user/repo.git\n[branch \"main\"]\n    remote = origin\n    merge = refs/heads/main\n";

#[test]
fn git_config_sections_and_values() {
    let cfg = parse_git_config(
        "# comment\n[core]\n    repositoryformatversion = 0\n[remote \"origin\"]\n    url = git@github.com:user/repo.git\n    fetch = +refs/heads/*:refs/remotes/origin/*\n",
    );
    assert!(cfg.has_section("core"));
    assert!(cfg.has_section("remote \"origin\""));
    assert!(!cfg.has_section("remote \"upstream\""));
    assert_eq!(cfg.get("remote \"origin\"", "url").as_deref(), Some("git@github.com:user/repo.git"));
    assert_eq!(cfg.get("core", "repositoryformatversion").as_deref(), Some("0"));
    assert_eq!(cfg.get("core", "bare"), None);
}

#[test]
fn remote_url_lookup_and_its_errors() {
    let cfg = "[remote \"origin\"]\n\turl = https://github.com/user/repo.git\n[remote \"bare\"]\n";
    assert_eq!(
        yank_path::vcs::parse_remote_url(cfg, "origin").unwrap(),
        "https://github.com/user/repo.git"
    );
    match yank_path::vcs::parse_remote_url(cfg, "upstream") {
        Err(YankError::Vcs(m)) => assert_eq!(m, "remote 'upstream' not found"),
        other => panic!("expected a missing remote, got {other:?}"),
    }
    match yank_path::vcs::parse_remote_url(cfg, "bare") {
        Err(YankError::Vcs(m)) => assert_eq!(m, "remote 'bare' has no url"),
        other => panic!("expected a remote without url, got {other:?}"),
    }
}

#[test]
fn upstream_needs_remote_and_merge() {
    assert!(check_has_upstream(CONFIG_WITH_UPSTREAM, "main"));
    assert!(!check_has_upstream(CONFIG_WITH_UPSTREAM, "dev"));
    assert!(!check_has_upstream("[branch \"main\"]\n    remote = origin\n", "main"));
}

#[test]
fn head_forms() {
    let h = parse_head("ref: refs/heads/feature-branch\n");
    assert_eq!(h.ref_path.as_deref(), Some("refs/heads/feature-branch"));
    assert_eq!(h.branch.as_deref(), Some("feature-branch"));
    assert!(!h.detached);
    assert_eq!(h.sha, None);

    let d = parse_head(&format!("{SHA}\n"));
    assert!(d.detached);
    assert_eq!(d.branch, None);
    assert_eq!(d.sha.as_deref(), Some(SHA));

    let junk = parse_head("garbage");
    assert!(junk.detached);
    assert_eq!(junk.sha, None);
    assert_eq!(junk.ref_path, None);
}

#[test]
fn refs_resolve_loose_first_then_packed() {
    let packed = format!("# pack-refs with: peeled fully-peeled sorted\n{SHA} refs/heads/main\n");
    assert_eq!(resolve_ref(None, Some(&packed), "refs/heads/main").as_deref(), Some(SHA));
    assert_eq!(
        resolve_ref(Some("def4567890123456789012345678901234567890\n"), Some(&packed), "refs/heads/main")
            .as_deref(),
        Some("def4567890123456789012345678901234567890")
    );
    assert_eq!(resolve_ref(None, Some(&packed), "refs/heads/other"), None);
    assert_eq!(resolve_ref(None, None, "refs/heads/main"), None);
    assert_eq!(remote_ref_path("origin", "main"), "refs/remotes/origin/main");
}

#[test]
fn ahead_only_when_both_known_and_different() {
    assert!(check_ahead_of_remote(Some("a"), Some("b")));
    assert!(!check_ahead_of_remote(Some("a"), Some("a")));
    assert!(!check_ahead_of_remote(None, Some("a")));
    assert!(!check_ahead_of_remote(Some("a"), None));
}

#[test]
fn vcs_info_for_branch_with_upstream() {
    let head_ref = format!("{SHA}\n");
    let info = vcs_info_from_files(CONFIG_WITH_UPSTREAM, "origin", "ref: refs/heads/main\n", Some(&head_ref), Some(&head_ref), None)
        .unwrap();
    assert_eq!(info.remote_url, "git@github.com:user/repo.git");
    assert_eq!(info.sha.as_deref(), Some(SHA));
    assert_eq!(info.branch.as_deref(), Some("main"));
    assert!(!info.detached);
    assert!(info.has_upstream);
    assert!(!info.ahead_of_remote);
}

#[test]
fn vcs_info_detects_local_commits_not_pushed() {
    let head_ref = format!("{SHA}\n");
    let info = vcs_info_from_files(
        CONFIG_WITH_UPSTREAM,
        "origin",
        "ref: refs/heads/main\n",
        Some(&head_ref),
        Some("000000000000000000000000000000000000dead\n"),
        None,
    )
    .unwrap();
    assert!(info.ahead_of_remote);
}

#[test]
fn vcs_info_for_detached_head_and_missing_remote() {
    let cfg = "[remote \"origin\"]\n    url = git@github.com:user/repo.git\n";
    let info = vcs_info_from_files(cfg, "origin", &format!("{SHA}\n"), None, None, None).unwrap();
    assert!(info.detached);
    assert_eq!(info.branch, None);
    assert_eq!(info.sha.as_deref(), Some(SHA));
    assert!(!info.has_upstream);

    match vcs_info_from_files(cfg, "upstream", "ref: refs/heads/main\n", None, None, None) {
        Err(YankError::Vcs(m)) => assert!(m.contains("upstream")),
        other => panic!("expected a missing remote, got {other:?}"),
    }
}

#[test]
fn vcs_info_from_packed_refs() {
    let cfg = "[remote \"origin\"]\n    url = git@github.com:user/repo.git\n";
    let packed = format!("# pack-refs with: peeled fully-peeled sorted\n{SHA} refs/heads/main\n");
    let info = vcs_info_from_files(cfg, "origin", "ref: refs/heads/main\n", None, None, Some(&packed)).unwrap();
    assert_eq!(info.sha.as_deref(), Some(SHA));
}

// ---------------------------------------------------------------------------
// Fakes
// ---------------------------------------------------------------------------

#[test]
fn fakes_answer_what_they_hold() {
    let p = FakeVcsInfoProvider::default_github();
    let info = p.info("/repo", "origin").unwrap();
    assert_eq!(info.remote_url, "git@github.com:user/repo.git");
    assert_eq!(info.sha.as_deref(), Some(SHA));
    assert_eq!(FakeRemoteVerifier::present().verify("/r", "origin", "main"), VerifyOutcome::Present);
    assert_eq!(FakeRemoteVerifier::absent().verify("/r", "origin", "main"), VerifyOutcome::Absent);
    assert_eq!(
        FakeRemoteVerifier::unverified("offline").verify("/r", "origin", "main"),
        VerifyOutcome::Unverified("offline".to_string())
    );
    let q = FakeVcsInfoProvider::new(make_info("https://gitlab.com/a/b", None, Some("x")));
    assert_eq!(q.info("/", "origin").unwrap().remote_url, "https://gitlab.com/a/b");
}

#[test]
fn remote_url_forms_agree() {
    // Scenario of the law on the three spellings of a remote.
    let forms = [
        "git@example.org:team/sub/proj.git",
        "ssh://git@example.org/team/sub/proj.git",
        "https://example.org/team/sub/proj.git",
    ];
    for f in forms {
        assert_eq!(
            owner_repo(f),
            ("example.org".to_string(), "team/sub".to_string(), "proj".to_string()),
            "form `{f}`"
        );
    }
}

#[test]
fn host_port_is_dropped_and_trailing_slash_ignored() {
    assert_eq!(
        owner_repo("https://example.org:8443/o/r/"),
        ("example.org".to_string(), "o".to_string(), "r".to_string())
    );
    assert_eq!(
        owner_repo("http://example.org/o/r.git"),
        ("example.org".to_string(), "o".to_string(), "r".to_string())
    );
    assert_eq!(
        owner_repo("ssh://example.org/o/r"),
        ("example.org".to_string(), "o".to_string(), "r".to_string())
    );
    match parse_remote_url("https://example.org/only") {
        Err(YankError::Vcs(m)) => assert_eq!(m, "cannot parse remote URL: https://example.org/only"),
        other => panic!("expected an unparseable URL, got {other:?}"),
    }
}

#[test]
fn resolve_ref_prefers_sha_then_fallback_branches() {
    let r = VcsRenderer::new(make_info("git@github.com:u/r.git", Some(SHA), Some("main")), None, true);
    assert_eq!(r.resolve_ref().unwrap(), SHA);
    let r = VcsRenderer::new(make_info("git@github.com:u/r.git", None, None), None, true);
    assert_eq!(r.resolve_ref().unwrap(), "main");
    let r = VcsRenderer::new(make_info("git@github.com:u/r.git", None, None), None, false);
    match r.resolve_ref() {
        Err(YankError::Vcs(m)) => assert_eq!(m, "could not resolve commit SHA (use --vcs-branch-fallback)"),
        other => panic!("expected a VCS error, got {other:?}"),
    }
}

#[test]
fn remote_url_forms_without_suffix_or_with_trailing_slash_agree() {
    // Scenario of the law on the spellings without `.git` and with a `/`.
    for f in [
        "git@example.org:team/proj",
        "git@example.org:team/proj/",
        "ssh://git@example.org/team/proj/",
        "https://example.org/team/proj",
        "http://example.org/team/proj/",
    ] {
        assert_eq!(
            owner_repo(f),
            ("example.org".to_string(), "team".to_string(), "proj".to_string()),
            "form `{f}`"
        );
    }
}

#[test]
fn packed_refs_ignore_ids_that_are_not_hex() {
    let packed = "zzzz567890123456789012345678901234567890 refs/heads/main\n";
    assert_eq!(resolve_ref(None, Some(packed), "refs/heads/main"), None);
}
