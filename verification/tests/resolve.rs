use std::cell::RefCell;
use std::collections::HashSet;
use std::path::{Path, PathBuf};

use yank_path::resolve::{resolve_against, resolve_one, resolve_operands};
use yank_path::{FileSystem, YankError};

/// In-memory filesystem for resolver tests.
struct MemFs {
    cwd: String,
    existing: RefCell<HashSet<PathBuf>>,
    canonical_of: Vec<(String, String)>,
}

impl MemFs {
    fn new(cwd: &str) -> Self {
        MemFs {
            cwd: cwd.to_string(),
            existing: RefCell::new(HashSet::new()),
            canonical_of: Vec::new(),
        }
    }

    fn with_file(self, p: &str) -> Self {
        self.existing.borrow_mut().insert(PathBuf::from(p));
        self
    }

    fn with_link(mut self, p: &str, target: &str) -> Self {
        self.existing.borrow_mut().insert(PathBuf::from(p));
        self.canonical_of.push((p.to_string(), target.to_string()));
        self
    }
}

impl FileSystem for MemFs {
    fn cwd(&self) -> Result<String, YankError> {
        Ok(self.cwd.clone())
    }
    fn home(&self) -> Option<String> {
        None
    }
    fn path_exists(&self, path: &str) -> bool {
        self.existing.borrow().contains(Path::new(path))
    }
    fn canonicalize(&self, path: &str) -> Result<String, YankError> {
        for (p, t) in &self.canonical_of {
            if p == path {
                return Ok(t.clone());
            }
        }
        if self.existing.borrow().contains(Path::new(path)) {
            Ok(path.to_string())
        } else {
            Err(YankError::NotFound(path.to_string()))
        }
    }
    fn is_dir(&self, _path: &str) -> bool {
        false
    }
    fn is_file(&self, path: &str) -> bool {
        self.existing.borrow().contains(Path::new(path))
    }
}

fn strings(v: &[&str]) -> Vec<String> {
    v.iter().map(|s| s.to_string()).collect()
}

#[test]
fn all_existing_paths_resolved_in_order() {
    let fs = MemFs::new("/work").with_file("/work/a.txt").with_file("/work/b.txt");
    let inputs = strings(&["a.txt", "b.txt"]);
    let resolved = resolve_operands(&inputs, &fs).unwrap();
    assert_eq!(resolved, strings(&["/work/a.txt", "/work/b.txt"]));
}

#[test]
fn absolute_operand_passes_through() {
    let fs = MemFs::new("/work").with_file("/etc/hosts");
    let inputs = strings(&["/etc/hosts"]);
    let resolved = resolve_operands(&inputs, &fs).unwrap();
    assert_eq!(resolved, strings(&["/etc/hosts"]));
}

#[test]
fn one_missing_aborts_whole_call() {
    let fs = MemFs::new("/work").with_file("/work/a.txt");
    let inputs = strings(&["a.txt", "missing.txt"]);
    let err = resolve_operands(&inputs, &fs).unwrap_err();
    match err {
        YankError::NotFound(p) => assert_eq!(p, "missing.txt"),
        other => panic!("expected NotFound, got {other:?}"),
    }
}

#[test]
fn empty_input_returns_empty() {
    let fs = MemFs::new("/work");
    let resolved = resolve_operands(&[], &fs).unwrap();
    assert!(resolved.is_empty());
}

#[test]
fn duplicates_are_preserved() {
    let fs = MemFs::new("/work").with_file("/work/a.txt");
    let inputs = strings(&["a.txt", "a.txt"]);
    let resolved = resolve_operands(&inputs, &fs).unwrap();
    assert_eq!(resolved, strings(&["/work/a.txt", "/work/a.txt"]));
}

// ---------------------------------------------------------------------------
// Further cases
// ---------------------------------------------------------------------------

#[test]
fn canonical_form_is_preferred_and_normalised() {
    let fs = MemFs::new("/work").with_link("/work/link", "/data/./real/../real");
    let resolved = resolve_operands(&strings(&["link"]), &fs).unwrap();
    assert_eq!(resolved, strings(&["/data/real"]));
}

#[test]
fn first_missing_operand_is_the_one_reported() {
    let fs = MemFs::new("/work");
    match resolve_operands(&strings(&["x", "y"]), &fs) {
        Err(YankError::NotFound(p)) => assert_eq!(p, "x"),
        other => panic!("expected NotFound, got {other:?}"),
    }
}

#[test]
fn resolve_one_falls_back_to_absolute_form() {
    assert_eq!(resolve_one("/a/b/../c", None), "/a/c");
    assert_eq!(resolve_one("/a/b", Some("/x/./y".to_string())), "/x/y");
}

#[test]
fn resolve_against_uses_the_given_directory() {
    let fs = MemFs::new("/elsewhere").with_file("/w/dir/../f");
    let resolved = resolve_against(&strings(&["dir/../f"]), "/w", &fs).0.unwrap();
    assert_eq!(resolved, strings(&["/w/f"]));
}
