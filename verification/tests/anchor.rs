use std::cell::RefCell;
use std::collections::HashSet;
use std::path::{Path, PathBuf};

use yank_path::anchor::absolute::AbsoluteRenderer;
use yank_path::anchor::base::BaseRenderer;
use yank_path::anchor::git::GitRenderer;
use yank_path::anchor::home::HomeRenderer;
use yank_path::anchor::parent::ParentRenderer;
use yank_path::anchor::relative_to::RelativeToRenderer;
use yank_path::anchor::{absolute_from, absolute_lexical, render_with};
use yank_path::path::{absolutize, normalize_components};
use yank_path::{Anchor, AnchorRenderer, FileSystem, RenderContext, YankError};

/// In-memory filesystem: every path registered as existing is already
/// canonical.
struct MockFileSystem {
    cwd: String,
    home: Option<String>,
    existing: RefCell<HashSet<PathBuf>>,
    dirs: RefCell<HashSet<PathBuf>>,
}

impl MockFileSystem {
    fn new(cwd: &str) -> Self {
        MockFileSystem {
            cwd: cwd.to_string(),
            home: None,
            existing: RefCell::new(HashSet::new()),
            dirs: RefCell::new(HashSet::new()),
        }
    }

    fn with_home(mut self, home: &str) -> Self {
        self.home = Some(home.to_string());
        self
    }

    fn with_existing_file(self, path: &str) -> Self {
        self.existing.borrow_mut().insert(PathBuf::from(path));
        self
    }

    fn with_existing_dir(self, path: &str) -> Self {
        self.existing.borrow_mut().insert(PathBuf::from(path));
        self.dirs.borrow_mut().insert(PathBuf::from(path));
        self
    }
}

impl FileSystem for MockFileSystem {
    fn cwd(&self) -> Result<String, YankError> {
        Ok(self.cwd.clone())
    }

    fn home(&self) -> Option<String> {
        self.home.clone()
    }

    fn path_exists(&self, path: &str) -> bool {
        self.existing.borrow().contains(Path::new(path))
    }

    fn canonicalize(&self, path: &str) -> Result<String, YankError> {
        if self.existing.borrow().contains(Path::new(path)) {
            Ok(path.to_string())
        } else {
            Err(YankError::NotFound(path.to_string()))
        }
    }

    fn is_dir(&self, path: &str) -> bool {
        self.dirs.borrow().contains(Path::new(path))
    }

    fn is_file(&self, path: &str) -> bool {
        self.existing.borrow().contains(Path::new(path)) && !self.dirs.borrow().contains(Path::new(path))
    }
}

fn ctx<'a>(
    cwd: &str,
    home: Option<&str>,
    git_root: Option<&str>,
    fs: &'a MockFileSystem,
) -> RenderContext<'a, MockFileSystem> {
    RenderContext {
        cwd: cwd.to_string(),
        home: home.map(|h| h.to_string()),
        git_root: git_root.map(|g| g.to_string()),
        fs,
    }
}

struct Case {
    name: &'static str,
    cwd: &'static str,
    target: &'static str,
    expected: &'static str,
}

#[test]
fn absolute_render_table() {
    let cases = [
        Case {
            name: "relative target joined with cwd (lexical fallback)",
            cwd: "/home/u/proj",
            target: "README.md",
            expected: "/home/u/proj/README.md",
        },
        Case {
            name: "absolute target passes through",
            cwd: "/home/u/proj",
            target: "/etc/hosts",
            expected: "/etc/hosts",
        },
        Case {
            name: "non-existent nested target uses lexical normalisation",
            cwd: "/home/u/proj",
            target: "src/./lib.rs",
            expected: "/home/u/proj/src/lib.rs",
        },
        Case {
            name: "dot target resolves to cwd",
            cwd: "/home/u/proj",
            target: ".",
            expected: "/home/u/proj",
        },
        Case {
            name: "dotdot target climbs cwd",
            cwd: "/home/u/proj",
            target: "../other",
            expected: "/home/u/other",
        },
    ];
    for c in cases {
        let fs = MockFileSystem::new(c.cwd);
        let got = AbsoluteRenderer.render(c.target, &ctx(c.cwd, None, None, &fs)).unwrap();
        assert_eq!(got, c.expected, "case `{}`", c.name);
    }
}

#[test]
fn base_render_table() {
    let cases = [
        Case {
            name: "dot target resolves to cwd basename",
            cwd: "/home/u/proj",
            target: ".",
            expected: "proj",
        },
        Case {
            name: "file in cwd",
            cwd: "/home/u/proj",
            target: "README.md",
            expected: "proj/README.md",
        },
        Case {
            name: "nested file in cwd",
            cwd: "/home/u/proj",
            target: "src/lib.rs",
            expected: "proj/src/lib.rs",
        },
        Case {
            name: "target outside cwd falls back to absolute",
            cwd: "/home/u/proj",
            target: "/etc/hosts",
            expected: "/etc/hosts",
        },
        Case {
            name: "cwd is root falls back to absolute",
            cwd: "/",
            target: "etc/hosts",
            expected: "/etc/hosts",
        },
    ];
    for c in cases {
        let fs = MockFileSystem::new(c.cwd);
        let got = BaseRenderer.render(c.target, &ctx(c.cwd, None, None, &fs)).unwrap();
        assert_eq!(got, c.expected, "case `{}`", c.name);
    }
}

#[test]
fn dot_at_git_root_yields_dot() {
    let fs = MockFileSystem::new("/home/u/proj");
    let got = GitRenderer
        .render(".", &ctx("/home/u/proj", None, Some("/home/u/proj"), &fs))
        .unwrap();
    assert_eq!(got, ".");
}

#[test]
fn file_at_root_yields_relative() {
    let fs = MockFileSystem::new("/home/u/proj");
    let got = GitRenderer
        .render("src/lib.rs", &ctx("/home/u/proj", None, Some("/home/u/proj"), &fs))
        .unwrap();
    assert_eq!(got, "src/lib.rs");
}

#[test]
fn file_under_subdir_resolves_via_cwd() {
    let fs = MockFileSystem::new("/home/u/proj/src");
    let got = GitRenderer
        .render("lib.rs", &ctx("/home/u/proj/src", None, Some("/home/u/proj"), &fs))
        .unwrap();
    assert_eq!(got, "src/lib.rs");
}

#[test]
fn no_git_root_errors() {
    let fs = MockFileSystem::new("/home/u/proj");
    let err = GitRenderer
        .render("src/lib.rs", &ctx("/home/u/proj", None, None, &fs))
        .unwrap_err();
    assert!(matches!(err, YankError::NotInRepo));
}

#[test]
fn target_outside_repo_errors() {
    let fs = MockFileSystem::new("/home/u/proj");
    let err = GitRenderer
        .render("/etc/hosts", &ctx("/home/u/proj", None, Some("/home/u/proj"), &fs))
        .unwrap_err();
    assert!(matches!(err, YankError::NotInRepo));
}

#[test]
fn home_render_table() {
    struct HomeCase {
        name: &'static str,
        cwd: &'static str,
        home: Option<&'static str>,
        target: &'static str,
        expected: &'static str,
    }
    let cases = [
        HomeCase {
            name: "dot under home collapses",
            cwd: "/home/u/proj",
            home: Some("/home/u"),
            target: ".",
            expected: "~/proj",
        },
        HomeCase {
            name: "nested file under home",
            cwd: "/home/u/proj",
            home: Some("/home/u"),
            target: "README.md",
            expected: "~/proj/README.md",
        },
        HomeCase {
            name: "cwd exactly equals home",
            cwd: "/home/u",
            home: Some("/home/u"),
            target: ".",
            expected: "~",
        },
        HomeCase {
            name: "target outside home keeps absolute form",
            cwd: "/home/u/proj",
            home: Some("/home/u"),
            target: "/etc/hosts",
            expected: "/etc/hosts",
        },
        HomeCase {
            name: "no home available — absolute fallback",
            cwd: "/home/u/proj",
            home: None,
            target: ".",
            expected: "/home/u/proj",
        },
    ];
    for c in cases {
        let mut fs = MockFileSystem::new(c.cwd);
        if let Some(h) = c.home {
            fs = fs.with_home(h);
        }
        let got = HomeRenderer.render(c.target, &ctx(c.cwd, c.home, None, &fs)).unwrap();
        assert_eq!(got, c.expected, "case `{}`", c.name);
    }
}

#[test]
fn dispatcher_routes_to_absolute() {
    let fs = MockFileSystem::new("/home/u/proj");
    let s = render_with(&Anchor::Absolute, "README.md", &ctx("/home/u/proj", None, None, &fs))
        .unwrap();
    assert_eq!(s, "/home/u/proj/README.md");
}

#[test]
fn normalize_collapses_dot_and_dotdot() {
    assert_eq!(normalize_components("/a/b/./c/../d"), "/a/b/d");
    assert_eq!(normalize_components("a/./b/../c"), "a/c");
    // A relative `..` with nothing to cancel is kept.
    assert_eq!(normalize_components("../foo"), "../foo");
    // `/..` collapses to `/`.
    assert_eq!(normalize_components("/.."), "/");
}

#[test]
fn absolutize_passes_through_absolute() {
    assert_eq!(absolutize("/x/y", "/cwd"), "/x/y");
    assert_eq!(absolutize("y", "/cwd"), "/cwd/y");
}

#[test]
fn parent_render_table() {
    let cases = [
        Case {
            name: "dot target resolves to parent/cwd basenames",
            cwd: "/home/u/projects/example-repo",
            target: ".",
            expected: "projects/example-repo",
        },
        Case {
            name: "file in cwd",
            cwd: "/home/u/projects/example-repo",
            target: "README.md",
            expected: "projects/example-repo/README.md",
        },
        Case {
            name: "nested file in cwd",
            cwd: "/home/u/projects/example-repo",
            target: "src/lib.rs",
            expected: "projects/example-repo/src/lib.rs",
        },
        Case {
            name: "target outside cwd falls back to absolute",
            cwd: "/home/u/projects/example-repo",
            target: "/etc/hosts",
            expected: "/etc/hosts",
        },
        Case {
            name: "cwd has no grandparent name falls back to absolute",
            cwd: "/foo",
            target: "bar.txt",
            expected: "/foo/bar.txt",
        },
    ];
    for c in cases {
        let fs = MockFileSystem::new(c.cwd);
        let got = ParentRenderer.render(c.target, &ctx(c.cwd, None, None, &fs)).unwrap();
        assert_eq!(got, c.expected, "case `{}`", c.name);
    }
}

#[test]
fn relative_to_render_table() {
    struct RelCase {
        name: &'static str,
        base: &'static str,
        cwd: &'static str,
        target: &'static str,
        expected: &'static str,
    }
    let cases = [
        RelCase {
            name: "child via relative target",
            base: "/home/u/projects",
            cwd: "/home/u/projects",
            target: "example-repo",
            expected: "example-repo",
        },
        RelCase {
            name: "child via cwd-relative dot",
            base: "/home/u/projects",
            cwd: "/home/u/projects/example-repo",
            target: ".",
            expected: "example-repo",
        },
        RelCase {
            name: "target equals base",
            base: "/home/u/projects/example-repo",
            cwd: "/home/u/projects/example-repo",
            target: ".",
            expected: ".",
        },
        RelCase {
            name: "sibling via dotdot walk-up",
            base: "/a/b/c",
            cwd: "/a/b/c",
            target: "/a/d/e",
            expected: "../../d/e",
        },
        RelCase {
            name: "fully disjoint paths walk to common root",
            base: "/a/b",
            cwd: "/a/b",
            target: "/x/y",
            expected: "../../x/y",
        },
    ];
    for c in cases {
        let fs = MockFileSystem::new(c.cwd);
        let renderer = RelativeToRenderer::new(c.base.to_string());
        let got = renderer.render(c.target, &ctx(c.cwd, None, None, &fs)).unwrap();
        assert_eq!(got, c.expected, "case `{}`", c.name);
    }
}

// ---------------------------------------------------------------------------
// Further cases
// ---------------------------------------------------------------------------

#[test]
fn absolute_uses_canonical_form_of_existing_target() {
    // The mock reports registered paths as their own canonical form; an
    // existing absolute target comes back as the filesystem gave it.
    let fs = MockFileSystem::new("/home/u/proj").with_existing_file("/home/u/proj/a.txt");
    let got = AbsoluteRenderer.render("/home/u/proj/a.txt", &ctx("/home/u/proj", None, None, &fs)).unwrap();
    assert_eq!(got, "/home/u/proj/a.txt");
}

#[test]
fn home_renders_existing_directory_below_home() {
    let fs = MockFileSystem::new("/home/u/proj")
        .with_home("/home/u")
        .with_existing_dir("/home/u/proj/src");
    let got = HomeRenderer
        .render("/home/u/proj/src", &ctx("/home/u/proj", Some("/home/u"), None, &fs))
        .unwrap();
    assert_eq!(got, "~/proj/src");
}

#[test]
fn home_prefix_must_end_at_a_separator() {
    // `/home/user2` is not inside `/home/u`.
    let fs = MockFileSystem::new("/home/u");
    let got = HomeRenderer
        .render("/home/u2/x", &ctx("/home/u", Some("/home/u"), None, &fs))
        .unwrap();
    assert_eq!(got, "/home/u2/x");
}

#[test]
fn dispatcher_routes_each_anchor() {
    let fs = MockFileSystem::new("/home/u/projects/repo");
    let c = ctx("/home/u/projects/repo", Some("/home/u"), Some("/home/u/projects/repo"), &fs);
    assert_eq!(render_with(&Anchor::Home, "a.rs", &c).unwrap(), "~/projects/repo/a.rs");
    assert_eq!(render_with(&Anchor::Base, "a.rs", &c).unwrap(), "repo/a.rs");
    assert_eq!(render_with(&Anchor::Parent, "a.rs", &c).unwrap(), "projects/repo/a.rs");
    assert_eq!(render_with(&Anchor::Git, "a.rs", &c).unwrap(), "a.rs");
    assert_eq!(
        render_with(&Anchor::RelativeTo("/home/u".to_string()), "a.rs", &c).unwrap(),
        "projects/repo/a.rs"
    );
    match render_with(&Anchor::Vcs, "a.rs", &c) {
        Err(YankError::Vcs(_)) => {}
        other => panic!("expected a VCS error, got {other:?}"),
    }
}

#[test]
fn relative_to_with_relative_base_is_taken_against_cwd() {
    let fs = MockFileSystem::new("/a/b");
    let renderer = RelativeToRenderer::new("..".to_string());
    let got = renderer.render("c/d", &ctx("/a/b", None, None, &fs)).unwrap();
    assert_eq!(got, "b/c/d");
}

#[test]
fn relative_to_from_root_base() {
    let fs = MockFileSystem::new("/");
    let renderer = RelativeToRenderer::new("/".to_string());
    let got = renderer.render("/etc/hosts", &ctx("/", None, None, &fs)).unwrap();
    assert_eq!(got, "etc/hosts");
}

#[test]
fn base_and_parent_never_give_a_bare_file_name() {
    // Scenario of the laws on the base and parent renderings.
    let fs = MockFileSystem::new("/w/p/q");
    let c = ctx("/w/p/q", None, None, &fs);
    let base = BaseRenderer.render("f.txt", &c).unwrap();
    let parent = ParentRenderer.render("f.txt", &c).unwrap();
    assert_eq!(base, "q/f.txt");
    assert_eq!(parent, "p/q/f.txt");
    assert!(base.starts_with("q/"));
    assert!(parent.starts_with("p/q"));
}

#[test]
fn normalize_is_idempotent_on_examples() {
    for p in ["/a/./b/../../c", "x/../../y", "/..", ".", "", "a//b/"] {
        let once = normalize_components(p);
        assert_eq!(normalize_components(&once), once, "path `{p}`");
    }
}

#[test]
fn normalize_edge_cases() {
    assert_eq!(normalize_components(""), ".");
    assert_eq!(normalize_components("."), ".");
    assert_eq!(normalize_components("a/.."), ".");
    assert_eq!(normalize_components("//a//b//"), "/a/b");
    assert_eq!(normalize_components("../../x"), "../../x");
}

#[test]
fn absolutize_keeps_separator_once() {
    assert_eq!(absolutize("y", "/cwd/"), "/cwd/y");
    assert_eq!(absolutize("y", ""), "y");
}

#[test]
fn walking_back_from_the_base_reaches_the_target() {
    // Scenario of the round-trip law of the relative-to rendering.
    let fs = MockFileSystem::new("/a/b/c");
    for (base, target) in [("/a/b/c", "/a/d/e"), ("/a/b", "/x/y"), ("/", "/p/q"), ("/p", "/p"), ("sub", "..")] {
        let renderer = RelativeToRenderer::new(base.to_string());
        let rel = renderer.render(target, &ctx("/a/b/c", None, None, &fs)).unwrap();
        let base_abs = absolute_lexical(base, "/a/b/c");
        let back = normalize_components(&absolutize(&rel, &base_abs));
        assert_eq!(back, absolute_lexical(target, "/a/b/c"), "base `{base}`, target `{target}`");
    }
}

#[test]
fn absolute_from_prefers_the_canonical_form() {
    assert_eq!(absolute_from("x/../y", "/w", None), "/w/y");
    assert_eq!(absolute_from("x", "/w", Some("/real/x".to_string())), "/real/x");
}

#[test]
fn relative_to_rendering_is_dot_only_for_the_same_path() {
    let fs = MockFileSystem::new("/a");
    let c = ctx("/a", None, None, &fs);
    assert_eq!(RelativeToRenderer::new("/a/b".to_string()).render("/a/b", &c).unwrap(), ".");
    assert_eq!(RelativeToRenderer::new("/a/b/c".to_string()).render("/a/b", &c).unwrap(), "..");
    assert_eq!(RelativeToRenderer::new("/a/b".to_string()).render("/a/b/c", &c).unwrap(), "c");
}

#[test]
fn git_file_at_root_keeps_the_root_name() {
    let fs = MockFileSystem::new("/home/u/proj").with_existing_file("/home/u/proj/README.md");
    let c = ctx("/home/u/proj", None, Some("/home/u/proj"), &fs);
    assert_eq!(GitRenderer.render("README.md", &c).unwrap(), "proj/README.md");
    assert_eq!(render_with(&Anchor::Git, "README.md", &c).unwrap(), "proj/README.md");
}

#[test]
fn git_directory_at_root_stays_relative() {
    let fs = MockFileSystem::new("/home/u/proj").with_existing_dir("/home/u/proj/src");
    let c = ctx("/home/u/proj", None, Some("/home/u/proj"), &fs);
    assert_eq!(GitRenderer.render("src", &c).unwrap(), "src");
}

#[test]
fn git_file_at_filesystem_root_keeps_the_separator() {
    let fs = MockFileSystem::new("/").with_existing_file("/f");
    let c = ctx("/", None, Some("/"), &fs);
    assert_eq!(GitRenderer.render("f", &c).unwrap(), "/f");
}

#[test]
fn relative_to_file_directly_in_base_keeps_the_base_name() {
    let fs = MockFileSystem::new("/home/u/proj").with_existing_file("/home/u/proj/README.md");
    let c = ctx("/home/u/proj", None, None, &fs);
    let r = RelativeToRenderer::new("/home/u/proj".to_string());
    assert_eq!(r.render("README.md", &c).unwrap(), "proj/README.md");
    assert_eq!(
        render_with(&Anchor::RelativeTo(".".to_string()), "README.md", &c).unwrap(),
        "proj/README.md"
    );
}

#[test]
fn relative_to_directory_directly_in_base_stays_bare() {
    let fs = MockFileSystem::new("/home/u/projects").with_existing_dir("/home/u/projects/example-repo");
    let c = ctx("/home/u/projects/example-repo", None, None, &fs);
    let r = RelativeToRenderer::new("/home/u/projects".to_string());
    assert_eq!(r.render(".", &c).unwrap(), "example-repo");
}

#[test]
fn home_never_climbs_above_home() {
    let fs = MockFileSystem::new("/home/u/proj").with_home("/home/u");
    let c = ctx("/home/u/proj", Some("/home/u"), None, &fs);
    assert_eq!(HomeRenderer.render("../..", &c).unwrap(), "/home");
    assert_eq!(HomeRenderer.render("../../u2/f", &c).unwrap(), "/home/u2/f");
    assert_eq!(HomeRenderer.render("..", &c).unwrap(), "~");
}
