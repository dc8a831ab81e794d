//! Git repository root detection by walking up the directory tree.
//!
//! No `git` process is run: the detector looks for a `.git` entry (a
//! directory, or a file for worktrees and submodules) in the start directory
//! and then in each ancestor.
use vstd::prelude::*;

use crate::path::{
    display, display_exec, is_absolute, join_chars, join_spec, segments, segments_of, sv,
    PathParts,
};
use crate::text::{chars_of, string_of};

verus! {

/// Whether anything exists at `path`.
///
/// Trusted: calls std's `Path::exists`, whose answer depends on the state
/// of the disk; nothing is claimed of it.
#[verifier::external_body]
fn entry_exists(path: &str) -> (r: bool) {
    std::path::Path::new(path).exists()
}

/// Find the Git repository root that contains a directory.
pub trait GitRootDetector {
    /// Walk up from `start` looking for a `.git` entry: the directory that
    /// holds one, or `None` when no ancestor does.
    fn find_root(&self, start: &str) -> Option<String>;
}

/// What a detector answered when asked for the root above `start`. The
/// fields are private: an answer is recorded only by [`ask_root`].
pub struct RootAnswer {
    start: Seq<char>,
    root: Option<String>,
}

impl RootAnswer {
    /// The directory the detector was asked about.
    pub closed spec fn start(self) -> Seq<char> {
        self.start
    }

    /// The answer of [`GitRootDetector::find_root`].
    pub closed spec fn root(self) -> Option<String> {
        self.root
    }
}

/// Ask `detector` for the root above `start`; returns the answer and its
/// record.
pub fn ask_root<G: GitRootDetector>(detector: &G, start: &str) -> (r: (
    Option<String>,
    Ghost<RootAnswer>,
))
    ensures
        r.1@.start() == start@,
        r.1@.root() == r.0,
{
    let a = detector.find_root(start);
    let ghost g = RootAnswer { start: start@, root: a };
    (a, Ghost(g))
}

/// The ancestor of `start` that keeps its first `k` segments (`k` equal to
/// the number of segments gives `start` itself, in normal form).
pub open spec fn ancestor(start: Seq<char>, k: int) -> Seq<char> {
    display(is_absolute(start), segments(start).subrange(0, k))
}

/// Detector that checks the disk for a `.git` entry in each ancestor.
#[derive(Debug, Default, Clone, Copy)]
pub struct WalkUpGitRootDetector;

impl WalkUpGitRootDetector {
    /// A detector.
    pub fn new() -> (r: Self) {
        WalkUpGitRootDetector
    }
}

/// The `i`-th directory of a walk up from `start`, which has `n` segments:
/// `start` itself as given, then its ancestors, each one segment shorter.
pub open spec fn walk_dir(start: Seq<char>, n: int, i: int) -> Seq<char> {
    if i == 0 {
        start
    } else {
        ancestor(start, n - i)
    }
}

/// Whether `asked` records a walk up from `start` that found `r`: `start`
/// and then its ancestors are asked in turn, deepest first, whether they
/// hold a `.git` entry; the first that does is the root; `None` when none
/// does, the filesystem root included. Each record is the directory asked
/// about, the path of its `.git` entry, and the answer.
pub open spec fn walk_fits(
    start: Seq<char>,
    asked: Seq<(Seq<char>, Seq<char>, bool)>,
    r: Option<String>,
) -> bool {
    let n = segments(start).len() as int;
    &&& 1 <= asked.len() <= n + 1
    &&& forall|i: int|
        0 <= i < asked.len() ==> (#[trigger] asked[i]).0 == walk_dir(start, n, i) && asked[i].1
            == join_spec(asked[i].0, ".git"@)
    &&& forall|i: int| 0 <= i < asked.len() - 1 ==> !(#[trigger] asked[i]).2
    &&& match r {
        Some(root) => asked.last().2 && root@ == asked.last().0,
        None => asked.len() == n + 1 && !asked.last().2,
    }
}

impl WalkUpGitRootDetector {
    /// [`GitRootDetector::find_root`], returning the questions asked of the
    /// disk with their answers: `start` as given when the disk reports a
    /// `.git` entry in it, otherwise the nearest ancestor that has one, or
    /// `None` when none does.
    pub fn find_root_recorded(&self, start: &str) -> (res: (
        Option<String>,
        Ghost<Seq<(Seq<char>, Seq<char>, bool)>>,
    ))
        ensures
            walk_fits(start@, res.1@, res.0),
    {
        let s = chars_of(start);
        let abs = s.len() > 0 && s[0] == '/';
        let mut cur = segments_of(&s);
        let total = cur.len();
        let ghost all = segments(start@);
        let ghost n = all.len() as int;
        let ghost mut asked: Seq<(Seq<char>, Seq<char>, bool)> = Seq::empty();
        let dot_git = chars_of(".git");
        assert(dot_git@ == ".git"@);
        loop
            invariant
                s@ == start@,
                abs == is_absolute(start@),
                all == segments(start@),
                n == all.len(),
                dot_git@ == ".git"@,
                total == all.len(),
                cur.len() <= all.len(),
                sv(cur@) == all.subrange(0, cur.len() as int),
                asked.len() == n - cur.len(),
                forall|i: int|
                    0 <= i < asked.len() ==> (#[trigger] asked[i]).0 == walk_dir(start@, n, i)
                        && asked[i].1 == join_spec(asked[i].0, ".git"@),
                forall|i: int| 0 <= i < asked.len() ==> !(#[trigger] asked[i]).2,
            decreases cur.len(),
        {
            let parts = PathParts { absolute: abs, segments: cur };
            let dir = if parts.segments.len() == total {
                s.clone()
            } else {
                display_exec(&parts)
            };
            cur = parts.segments;
            let candidate = join_chars(&dir, &dot_git);
            let found = entry_exists(string_of(candidate.as_slice()).as_str());
            let ghost q = (dir@, candidate@, found);
            proof {
                assert(walk_dir(start@, n, asked.len() as int) == dir@);
                assert(asked.push(q)[asked.len() as int] == q);
                asked = asked.push(q);
            }
            if found {
                let root = string_of(dir.as_slice());
                return (Some(root), Ghost(asked));
            }
            if cur.len() == 0 {
                return (None, Ghost(asked));
            }
            let ghost before = sv(cur@);
            cur.pop();
            assert(sv(cur@) =~= before.drop_last());
            assert(all.subrange(0, cur.len() as int) =~= all.subrange(
                0,
                cur.len() + 1,
            ).drop_last());
        }
    }
}

impl GitRootDetector for WalkUpGitRootDetector {
    /// [`WalkUpGitRootDetector::find_root_recorded`]: the nearest ancestor
    /// of `start` (itself first) in which the disk reports a `.git` entry,
    /// for some answers of the disk; `None` when it reports none.
    fn find_root(&self, start: &str) -> (r: Option<String>)
        ensures
            exists|asked: Seq<(Seq<char>, Seq<char>, bool)>| #[trigger] walk_fits(start@, asked, r),
    {
        let (r, asked) = self.find_root_recorded(start);
        assert(walk_fits(start@, asked@, r));
        r
    }
}

} // verus!
