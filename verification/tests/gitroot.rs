use std::path::{Path, PathBuf};

use tempfile::tempdir;

use yank_path::{GitRootDetector, WalkUpGitRootDetector};

fn mkdir(dir: &Path, name: &str) -> PathBuf {
    tempfile::Builder::new()
        .prefix(name)
        .rand_bytes(0)
        .keep(true)
        .tempdir_in(dir)
        .expect("mkdir")
        .path()
        .to_path_buf()
}

fn touch(dir: &Path, name: &str) {
    tempfile::Builder::new()
        .prefix(name)
        .rand_bytes(0)
        .keep(true)
        .tempfile_in(dir)
        .expect("touch");
}

fn s(p: &Path) -> String {
    p.to_string_lossy().into_owned()
}

#[test]
fn finds_root_in_current_dir() {
    let tmp = tempdir().unwrap();
    mkdir(tmp.path(), ".git");
    let det = WalkUpGitRootDetector::new();
    assert_eq!(det.find_root(&s(tmp.path())), Some(s(tmp.path())));
}

#[test]
fn finds_root_in_ancestor() {
    let tmp = tempdir().unwrap();
    mkdir(tmp.path(), ".git");
    let a = mkdir(tmp.path(), "a");
    let b = mkdir(&a, "b");
    let c = mkdir(&b, "c");
    let det = WalkUpGitRootDetector::new();
    assert_eq!(det.find_root(&s(&c)), Some(s(tmp.path())));
}

#[test]
fn returns_none_when_no_git() {
    let tmp = tempdir().unwrap();
    let det = WalkUpGitRootDetector::new();
    assert_eq!(det.find_root(&s(tmp.path())), None);
}

#[test]
fn finds_root_when_dot_git_is_file() {
    // Worktrees and submodules use a `.git` file.
    let tmp = tempdir().unwrap();
    touch(tmp.path(), ".git");
    let det = WalkUpGitRootDetector::new();
    assert_eq!(det.find_root(&s(tmp.path())), Some(s(tmp.path())));
}

#[test]
fn nearest_repository_wins() {
    let tmp = tempdir().unwrap();
    mkdir(tmp.path(), ".git");
    let inner = mkdir(tmp.path(), "inner");
    mkdir(&inner, ".git");
    let deep = mkdir(&inner, "deep");
    let det = WalkUpGitRootDetector::new();
    assert_eq!(det.find_root(&s(&deep)), Some(s(&inner)));
}

#[test]
fn root_found_at_start_is_returned_as_given() {
    let tmp = tempdir().unwrap();
    mkdir(tmp.path(), ".git");
    let start = format!("{}/", s(tmp.path()));
    let det = WalkUpGitRootDetector::new();
    assert_eq!(det.find_root(&start), Some(start.clone()));
}

#[test]
fn nearest_git_entry_wins() {
    let tmp = tempdir().unwrap();
    mkdir(tmp.path(), ".git");
    let inner = mkdir(tmp.path(), "inner");
    mkdir(&inner, ".git");
    let deep = mkdir(&inner, "deep");
    let det = WalkUpGitRootDetector::new();
    assert_eq!(det.find_root(&s(&deep)), Some(s(&inner)));
}
