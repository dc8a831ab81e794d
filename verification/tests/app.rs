use std::cell::RefCell;
use std::collections::HashSet;
use std::path::{Path, PathBuf};

use yank_path::app::{build_vcs_warning, verify_note};
use yank_path::cli::FromAnchor;
use yank_path::vcs::{FakeRemoteVerifier, FakeVcsInfoProvider};
use yank_path::{
    Anchor, App, BufferSink, Cli, FakeClipboard, FileSystem, GitRootDetector, RemoteVerifier,
    VcsInfo, VcsInfoProvider, VerifyOutcome, YankError,
};

/// In-memory filesystem: registered paths exist and are their own
/// canonical form.
struct MemFs {
    cwd: String,
    home: Option<String>,
    existing: RefCell<HashSet<PathBuf>>,
    dirs: RefCell<HashSet<PathBuf>>,
}

impl MemFs {
    fn new(cwd: &str) -> Self {
        MemFs {
            cwd: cwd.to_string(),
            home: None,
            existing: RefCell::new(HashSet::new()),
            dirs: RefCell::new(HashSet::new()),
        }
    }
    fn with_home(mut self, home: &str) -> Self {
        self.home = Some(home.to_string());
        self
    }
    fn with_file(self, p: &str) -> Self {
        self.existing.borrow_mut().insert(PathBuf::from(p));
        self
    }
    fn with_dir(self, p: &str) -> Self {
        self.existing.borrow_mut().insert(PathBuf::from(p));
        self.dirs.borrow_mut().insert(PathBuf::from(p));
        self
    }
}

impl FileSystem for MemFs {
    fn cwd(&self) -> Result<String, YankError> {
        Ok(self.cwd.clone())
    }
    fn home(&self) -> Option<String> {
        self.home.clone()
    }
    fn path_exists(&self, path: &str) -> bool {
        self.existing.borrow().contains(Path::new(path))
    }
    fn canonicalize(&self, path: &str) -> Result<String, YankError> {
        if self.existing.borrow().contains(Path::new(path)) {
            Ok(path.to_string())
        } else {
            Err(YankError::NotFound(path.to_string()))
        }
    }
    fn is_dir(&self, path: &str) -> bool {
        self.dirs.borrow().contains(Path::new(path))
    }
    fn is_file(&self, path: &str) -> bool {
        self.existing.borrow().contains(Path::new(path)) && !self.dirs.borrow().contains(Path::new(path))
    }
}

/// Never finds a repository.
struct NoGit;
impl GitRootDetector for NoGit {
    fn find_root(&self, _start: &str) -> Option<String> {
        None
    }
}

/// Always finds the given repository root.
struct AtRoot(&'static str);
impl GitRootDetector for AtRoot {
    fn find_root(&self, _start: &str) -> Option<String> {
        Some(self.0.to_string())
    }
}

/// Fails every metadata request.
struct NoVcs;
impl VcsInfoProvider for NoVcs {
    fn info(&self, _git_root: &str, _remote: &str) -> Result<VcsInfo, YankError> {
        Err(YankError::Vcs("VcsInfoProvider not configured".to_string()))
    }
}

/// Reports every ref as present.
struct NoVerify;
impl RemoteVerifier for NoVerify {
    fn verify(&self, _git_root: &str, _remote: &str, _git_ref: &str) -> VerifyOutcome {
        VerifyOutcome::Present
    }
}

fn cli_with(paths: Vec<&str>) -> Cli {
    Cli {
        paths: paths.into_iter().map(|p| p.to_string()).collect(),
        from: None,
        relative_to: None,
        absolute: false,
        glob: vec![],
        print: false,
        no_copy: false,
        vcs: false,
        vcs_remote: None,
        vcs_default_branch: None,
        vcs_branch_fallback: false,
        vcs_verify: false,
    }
}

fn home_fs() -> MemFs {
    MemFs::new("/home/u/proj").with_home("/home/u").with_dir("/home/u/proj")
}

#[test]
fn default_home_anchor_copies_to_clipboard() {
    let fs = home_fs();
    let mut clip = FakeClipboard::new_available();
    let mut sink = BufferSink::new();
    let cli = cli_with(vec![]);
    let code = App::new(&fs, &NoGit, &NoVcs, &NoVerify, &mut clip, &mut sink).run(&cli).unwrap();
    assert_eq!(code, 0);
    assert_eq!(clip.contents().as_deref(), Some("~/proj"));
    assert!(sink.lines.is_empty(), "sink should be untouched");
}

#[test]
fn print_writes_to_sink_and_clipboard() {
    let fs = home_fs();
    let mut clip = FakeClipboard::new_available();
    let mut sink = BufferSink::new();
    let mut cli = cli_with(vec![]);
    cli.print = true;
    let code = App::new(&fs, &NoGit, &NoVcs, &NoVerify, &mut clip, &mut sink).run(&cli).unwrap();
    assert_eq!(code, 0);
    assert_eq!(clip.contents().as_deref(), Some("~/proj"));
    assert_eq!(sink.joined(), "~/proj");
}

#[test]
fn no_copy_with_print_writes_to_sink_only() {
    let fs = home_fs();
    let mut clip = FakeClipboard::new_available();
    let mut sink = BufferSink::new();
    let mut cli = cli_with(vec![]);
    cli.no_copy = true;
    cli.print = true;
    let code = App::new(&fs, &NoGit, &NoVcs, &NoVerify, &mut clip, &mut sink).run(&cli).unwrap();
    assert_eq!(code, 0);
    assert_eq!(clip.contents(), None, "clipboard must not be touched under --no-copy");
    assert_eq!(sink.joined(), "~/proj");
}

#[test]
fn no_copy_without_print_is_silent_success() {
    let fs = home_fs();
    let mut clip = FakeClipboard::new_available();
    let mut sink = BufferSink::new();
    let mut cli = cli_with(vec![]);
    cli.no_copy = true;
    let code = App::new(&fs, &NoGit, &NoVcs, &NoVerify, &mut clip, &mut sink).run(&cli).unwrap();
    assert_eq!(code, 0);
    assert_eq!(clip.contents(), None);
    assert!(sink.lines.is_empty());
}

#[test]
fn headless_clipboard_falls_back_to_stdout() {
    let fs = home_fs();
    let mut clip = FakeClipboard::new_unavailable();
    let mut sink = BufferSink::new();
    let cli = cli_with(vec![]);
    let code = App::new(&fs, &NoGit, &NoVcs, &NoVerify, &mut clip, &mut sink).run(&cli).unwrap();
    assert_eq!(code, 0);
    assert_eq!(clip.contents(), None, "headless clipboard untouched");
    assert_eq!(sink.joined(), "~/proj");
}

#[test]
fn headless_plus_print_writes_only_once() {
    let fs = home_fs();
    let mut clip = FakeClipboard::new_unavailable();
    let mut sink = BufferSink::new();
    let mut cli = cli_with(vec![]);
    cli.print = true;
    let code = App::new(&fs, &NoGit, &NoVcs, &NoVerify, &mut clip, &mut sink).run(&cli).unwrap();
    assert_eq!(code, 0);
    assert_eq!(sink.lines.len(), 1, "must not double-emit");
    assert_eq!(sink.joined(), "~/proj");
}

#[test]
fn multiple_operands_are_newline_joined_in_order() {
    let fs = MemFs::new("/home/u/proj")
        .with_home("/home/u")
        .with_file("/home/u/proj/a.txt")
        .with_file("/home/u/proj/b.txt");
    let mut clip = FakeClipboard::new_available();
    let mut sink = BufferSink::new();
    let cli = cli_with(vec!["a.txt", "b.txt"]);
    let code = App::new(&fs, &NoGit, &NoVcs, &NoVerify, &mut clip, &mut sink).run(&cli).unwrap();
    assert_eq!(code, 0);
    assert_eq!(clip.contents().as_deref(), Some("~/proj/a.txt\n~/proj/b.txt"));
}

#[test]
fn missing_operand_aborts_with_not_found_and_clipboard_untouched() {
    let fs = MemFs::new("/home/u/proj").with_home("/home/u").with_file("/home/u/proj/a.txt");
    let mut clip = FakeClipboard::new_available();
    let mut sink = BufferSink::new();
    let cli = cli_with(vec!["a.txt", "missing.txt"]);
    let err = App::new(&fs, &NoGit, &NoVcs, &NoVerify, &mut clip, &mut sink).run(&cli).unwrap_err();
    match err {
        YankError::NotFound(p) => assert_eq!(p, "missing.txt"),
        other => panic!("expected NotFound, got {other:?}"),
    }
    assert_eq!(clip.contents(), None, "clipboard must be untouched on validation error");
    assert!(sink.lines.is_empty(), "sink must be untouched on validation error");
}

/// A filesystem on the real disk with a fixed working directory.
struct RealCwdFs {
    cwd: String,
}

impl FileSystem for RealCwdFs {
    fn cwd(&self) -> Result<String, YankError> {
        Ok(self.cwd.clone())
    }
    fn home(&self) -> Option<String> {
        None
    }
    fn path_exists(&self, p: &str) -> bool {
        Path::new(p).exists()
    }
    fn canonicalize(&self, p: &str) -> Result<String, YankError> {
        Path::new(p)
            .canonicalize()
            .map(|c| c.to_string_lossy().into_owned())
            .map_err(YankError::from)
    }
    fn is_dir(&self, p: &str) -> bool {
        Path::new(p).is_dir()
    }
    fn is_file(&self, p: &str) -> bool {
        Path::new(p).is_file()
    }
}

#[test]
fn glob_no_match_surfaces_glob_no_match_error() {
    let tmp = tempfile::tempdir().unwrap();
    let cwd = tmp.path().canonicalize().unwrap().to_string_lossy().into_owned();
    let fs = RealCwdFs { cwd };
    let mut clip = FakeClipboard::new_available();
    let mut sink = BufferSink::new();
    let mut cli = cli_with(vec![]);
    cli.glob = vec!["*.nonexistent_ext".to_string()];
    let err = App::new(&fs, &NoGit, &NoVcs, &NoVerify, &mut clip, &mut sink).run(&cli).unwrap_err();
    match err {
        YankError::GlobNoMatch(patterns) => {
            assert_eq!(patterns, vec!["*.nonexistent_ext".to_string()]);
        }
        other => panic!("expected GlobNoMatch, got {other:?}"),
    }
    assert_eq!(clip.contents(), None);
    assert!(sink.lines.is_empty());
}

#[test]
fn conflicting_anchor_options_propagate() {
    let fs = MemFs::new("/home/u/proj").with_home("/home/u");
    let mut clip = FakeClipboard::new_available();
    let mut sink = BufferSink::new();
    let mut cli = cli_with(vec![]);
    cli.from = Some(FromAnchor::Home);
    cli.absolute = true;
    let err = App::new(&fs, &NoGit, &NoVcs, &NoVerify, &mut clip, &mut sink).run(&cli).unwrap_err();
    assert!(matches!(err, YankError::ConflictingAnchors));
    assert_eq!(clip.contents(), None);
}

#[test]
fn absolute_anchor_renders_canonical_paths() {
    let fs = MemFs::new("/home/u/proj").with_file("/home/u/proj/a.txt");
    let mut clip = FakeClipboard::new_available();
    let mut sink = BufferSink::new();
    let mut cli = cli_with(vec!["a.txt"]);
    cli.absolute = true;
    let code = App::new(&fs, &NoGit, &NoVcs, &NoVerify, &mut clip, &mut sink).run(&cli).unwrap();
    assert_eq!(code, 0);
    assert_eq!(clip.contents().as_deref(), Some("/home/u/proj/a.txt"));
    assert_eq!(cli.anchor().unwrap(), Anchor::Absolute);
}

// ---------------------------------------------------------------------------
// Further cases
// ---------------------------------------------------------------------------

const SHA: &str = "abc1234567890123456789012345678901234567";

fn repo_fs() -> MemFs {
    MemFs::new("/home/u/repo")
        .with_dir("/home/u/repo")
        .with_file("/home/u/repo/a.rs")
        .with_file("/home/u/repo/b.rs")
}

fn vcs_cli(paths: Vec<&str>) -> Cli {
    let mut cli = cli_with(paths);
    cli.vcs = true;
    cli.no_copy = true;
    cli.print = true;
    cli
}

#[test]
fn vcs_run_renders_permalinks_one_per_line() {
    let fs = repo_fs();
    let provider = FakeVcsInfoProvider::default_github();
    let mut clip = FakeClipboard::new_available();
    let mut sink = BufferSink::new();
    let cli = vcs_cli(vec!["a.rs", "b.rs"]);
    let mut app = App::new(&fs, &AtRoot("/home/u/repo"), &provider, &NoVerify, &mut clip, &mut sink);
    assert_eq!(app.run(&cli).unwrap(), 0);
    assert!(app.notes().is_empty());
    assert_eq!(
        sink.joined(),
        format!(
            "https://github.com/user/repo/blob/{SHA}/a.rs\nhttps://github.com/user/repo/blob/{SHA}/b.rs"
        )
    );
}

#[test]
fn vcs_run_outside_repository_is_a_vcs_error() {
    let fs = repo_fs();
    let provider = FakeVcsInfoProvider::default_github();
    let mut clip = FakeClipboard::new_available();
    let mut sink = BufferSink::new();
    let cli = vcs_cli(vec!["a.rs"]);
    let err = App::new(&fs, &NoGit, &provider, &NoVerify, &mut clip, &mut sink).run(&cli).unwrap_err();
    match err {
        YankError::Vcs(m) => assert_eq!(m, "not in a repository"),
        other => panic!("expected a VCS error, got {other:?}"),
    }
    assert!(sink.lines.is_empty());
    assert_eq!(err_exit_code_of_vcs(), 12);
}

fn err_exit_code_of_vcs() -> i32 {
    YankError::Vcs(String::new()).exit_code()
}

#[test]
fn vcs_run_warns_about_risky_state_and_remote_check() {
    let fs = repo_fs();
    let provider = FakeVcsInfoProvider::new(VcsInfo {
        remote_url: "git@github.com:user/repo.git".to_string(),
        sha: Some(SHA.to_string()),
        branch: Some("main".to_string()),
        detached: false,
        has_upstream: false,
        ahead_of_remote: true,
    });
    let verifier = FakeRemoteVerifier::absent();
    let mut clip = FakeClipboard::new_available();
    let mut sink = BufferSink::new();
    let mut cli = vcs_cli(vec!["a.rs"]);
    cli.vcs_verify = true;
    let mut app = App::new(&fs, &AtRoot("/home/u/repo"), &provider, &verifier, &mut clip, &mut sink);
    assert_eq!(app.run(&cli).unwrap(), 0);
    assert_eq!(
        app.notes(),
        &vec![
            "yank-path: warning: commit abc1234 may not exist on remote 'origin' (no upstream, local-only commits)".to_string(),
            "yank-path: warning: abc1234 not found on remote 'origin'".to_string(),
        ]
    );
    assert_eq!(sink.joined(), format!("https://github.com/user/repo/blob/{SHA}/a.rs"));
}

#[test]
fn vcs_verify_unverified_is_a_note_and_still_succeeds() {
    let fs = repo_fs();
    let provider = FakeVcsInfoProvider::default_github();
    let verifier = FakeRemoteVerifier::unverified("git not available");
    let mut clip = FakeClipboard::new_available();
    let mut sink = BufferSink::new();
    let mut cli = vcs_cli(vec!["a.rs"]);
    cli.vcs_verify = true;
    cli.vcs_remote = Some("upstream".to_string());
    let mut app = App::new(&fs, &AtRoot("/home/u/repo"), &provider, &verifier, &mut clip, &mut sink);
    assert_eq!(app.run(&cli).unwrap(), 0);
    assert_eq!(
        app.notes(),
        &vec!["yank-path: note: could not verify against remote 'upstream' (git not available)".to_string()]
    );
}

#[test]
fn vcs_provider_error_is_passed_on() {
    let fs = repo_fs();
    let mut clip = FakeClipboard::new_available();
    let mut sink = BufferSink::new();
    let cli = vcs_cli(vec!["a.rs"]);
    let err = App::new(&fs, &AtRoot("/home/u/repo"), &NoVcs, &NoVerify, &mut clip, &mut sink)
        .run(&cli)
        .unwrap_err();
    assert!(matches!(err, YankError::Vcs(m) if m == "VcsInfoProvider not configured"));
}

#[test]
fn git_anchor_without_repository_is_not_in_repo() {
    let fs = repo_fs();
    let mut clip = FakeClipboard::new_available();
    let mut sink = BufferSink::new();
    let mut cli = cli_with(vec!["a.rs"]);
    cli.from = Some(FromAnchor::Git);
    let err = App::new(&fs, &NoGit, &NoVcs, &NoVerify, &mut clip, &mut sink).run(&cli).unwrap_err();
    assert!(matches!(err, YankError::NotInRepo));
    assert_eq!(err.exit_code(), 3);
    assert_eq!(clip.contents(), None);
}

#[test]
fn relative_to_anchor_runs_end_to_end() {
    let fs = repo_fs();
    let mut clip = FakeClipboard::new_available();
    let mut sink = BufferSink::new();
    let mut cli = cli_with(vec!["a.rs"]);
    cli.relative_to = Some("/home".to_string());
    App::new(&fs, &NoGit, &NoVcs, &NoVerify, &mut clip, &mut sink).run(&cli).unwrap();
    assert_eq!(clip.contents().as_deref(), Some("u/repo/a.rs"));
}

#[test]
fn warning_text_for_each_reason() {
    let mut info = VcsInfo {
        remote_url: "x".to_string(),
        sha: None,
        branch: None,
        detached: true,
        has_upstream: false,
        ahead_of_remote: false,
    };
    assert_eq!(
        build_vcs_warning(&info, "origin").as_deref(),
        Some("yank-path: warning: commit unknown may not exist on remote 'origin' (detached HEAD)")
    );
    info.detached = false;
    assert_eq!(build_vcs_warning(&info, "origin"), None);
    info.sha = Some("abc".to_string());
    info.branch = Some("b".to_string());
    assert_eq!(
        build_vcs_warning(&info, "up").as_deref(),
        Some("yank-path: warning: commit abc may not exist on remote 'up' (no upstream)")
    );
}

#[test]
fn verify_note_for_each_outcome() {
    assert_eq!(verify_note(SHA, "origin", &VerifyOutcome::Present), None);
    assert_eq!(
        verify_note("feature", "origin", &VerifyOutcome::Absent).as_deref(),
        Some("yank-path: warning: feature not found on remote 'origin'")
    );
    assert_eq!(
        verify_note(SHA, "o", &VerifyOutcome::Absent).as_deref(),
        Some("yank-path: warning: abc1234 not found on remote 'o'")
    );
    assert_eq!(
        verify_note("main", "o", &VerifyOutcome::Unverified("timed out".to_string())).as_deref(),
        Some("yank-path: note: could not verify against remote 'o' (timed out)")
    );
}

#[test]
fn clipboard_takes_the_whole_output_or_nothing() {
    // Scenario of the law that the clipboard only ever receives the full
    // output: one missing operand among several leaves it untouched.
    let fs = MemFs::new("/w").with_file("/w/a").with_file("/w/b");
    let mut clip = FakeClipboard::new_available();
    let mut sink = BufferSink::new();
    let mut cli = cli_with(vec!["a", "b", "c"]);
    cli.print = true;
    assert!(App::new(&fs, &NoGit, &NoVcs, &NoVerify, &mut clip, &mut sink).run(&cli).is_err());
    assert_eq!(clip.contents(), None);
    assert!(sink.lines.is_empty());
}

#[test]
fn git_anchor_keeps_the_repository_name_for_a_file_at_its_root() {
    let fs = repo_fs();
    let mut clip = FakeClipboard::new_available();
    let mut sink = BufferSink::new();
    let mut cli = cli_with(vec!["a.rs"]);
    cli.from = Some(FromAnchor::Git);
    App::new(&fs, &AtRoot("/home/u/repo"), &NoVcs, &NoVerify, &mut clip, &mut sink)
        .run(&cli)
        .unwrap();
    assert_eq!(clip.contents().as_deref(), Some("repo/a.rs"));
}

/// A filesystem whose working directory cannot be read.
struct NoCwd;
impl FileSystem for NoCwd {
    fn cwd(&self) -> Result<String, YankError> {
        Err(YankError::InvalidUsage("cwd unavailable".to_string()))
    }
    fn home(&self) -> Option<String> {
        None
    }
    fn path_exists(&self, _p: &str) -> bool {
        true
    }
    fn canonicalize(&self, p: &str) -> Result<String, YankError> {
        Ok(p.to_string())
    }
    fn is_dir(&self, _p: &str) -> bool {
        false
    }
    fn is_file(&self, _p: &str) -> bool {
        false
    }
}

#[test]
fn working_directory_error_is_the_run_error() {
    let mut clip = FakeClipboard::new_available();
    let mut sink = BufferSink::new();
    let err = App::new(&NoCwd, &NoGit, &NoVcs, &NoVerify, &mut clip, &mut sink)
        .run(&cli_with(vec!["a.rs"]))
        .unwrap_err();
    assert!(matches!(err, YankError::InvalidUsage(m) if m == "cwd unavailable"));
    assert_eq!(clip.contents(), None);
    assert!(sink.lines.is_empty());
}
