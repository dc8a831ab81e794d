//! Filesystem abstraction injected throughout the pipeline.
//!
//! Only the surface the pipeline needs is exposed, so tests can drive the
//! pipeline with an in-memory implementation. Paths are passed and returned
//! as strings.
use vstd::prelude::*;

use crate::error::YankError;
use crate::vcs::opt_view;

verus! {

/// What the pipeline asks of a filesystem.
///
/// The answers depend on the state of a disk, so no method promises a
/// particular result; the verified callers record the answers they get and
/// state their own results in terms of them.
pub trait FileSystem {
    /// Current working directory.
    fn cwd(&self) -> Result<String, YankError>;

    /// User home directory, if known.
    fn home(&self) -> Option<String>;

    /// Whether `path` exists.
    fn path_exists(&self, path: &str) -> bool;

    /// `path` in canonical, symlink-resolved absolute form.
    fn canonicalize(&self, path: &str) -> Result<String, YankError>;

    /// Whether `path` is a directory.
    fn is_dir(&self, path: &str) -> bool;

    /// Whether `path` is a regular file.
    fn is_file(&self, path: &str) -> bool;
}

/// What the filesystem answered when a path was looked up: the path asked,
/// whether it was reported to exist, and the canonical form it gave (asked
/// only of a path reported to exist; `None` when not asked or refused).
///
/// The fields are private: a look-up is recorded only by [`look_up`], from
/// the answers the filesystem gave.
pub struct Look {
    path: Seq<char>,
    exists: bool,
    canonical: Option<Seq<char>>,
}

impl Look {
    /// The path asked about.
    pub closed spec fn path_asked(self) -> Seq<char> {
        self.path
    }

    /// The answer of [`FileSystem::path_exists`].
    pub closed spec fn reported_exists(self) -> bool {
        self.exists
    }

    /// The answer of [`FileSystem::canonicalize`], when it was asked and
    /// gave one.
    pub closed spec fn canonical_given(self) -> Option<Seq<char>> {
        self.canonical
    }
}

/// The canonical form a look yields: the one given for a path reported to
/// exist, and none otherwise.
pub open spec fn look_canonical(l: Look) -> Option<Seq<char>> {
    if l.reported_exists() {
        l.canonical_given()
    } else {
        None
    }
}

/// Look `path` up: ask whether it exists and, if so, for its canonical
/// form. Returns the existence answer, the canonical form obtained, and the
/// record of both answers.
pub fn look_up<F: FileSystem>(fs: &F, path: &str) -> (r: (bool, Option<String>, Ghost<Look>))
    ensures
        r.2@.path_asked() == path@,
        r.0 == r.2@.reported_exists(),
        opt_view(r.1) == look_canonical(r.2@),
        r.2@.canonical_given() is Some ==> r.2@.reported_exists(),
{
    if fs.path_exists(path) {
        match fs.canonicalize(path) {
            Ok(c) => {
                let ghost l = Look { path: path@, exists: true, canonical: Some(c@) };
                (true, Some(c), Ghost(l))
            },
            Err(_) => (true, None, Ghost(Look { path: path@, exists: true, canonical: None })),
        }
    } else {
        (false, None, Ghost(Look { path: path@, exists: false, canonical: None }))
    }
}

/// What the filesystem answered when asked for the working directory. The
/// field is private: an answer is recorded only by [`ask_cwd`].
pub struct CwdAnswer {
    answer: Result<String, YankError>,
}

impl CwdAnswer {
    /// The answer of [`FileSystem::cwd`].
    pub closed spec fn answer(self) -> Result<String, YankError> {
        self.answer
    }
}

/// Ask for the working directory; returns the answer and its record.
pub fn ask_cwd<F: FileSystem>(fs: &F) -> (r: (Result<String, YankError>, Ghost<CwdAnswer>))
    ensures
        r.1@.answer() == r.0,
{
    let a = fs.cwd();
    let ghost g = CwdAnswer { answer: a };
    (a, Ghost(g))
}

/// What the filesystem answered when asked for the home directory. The
/// field is private: an answer is recorded only by [`ask_home`].
pub struct HomeAnswer {
    answer: Option<String>,
}

impl HomeAnswer {
    /// The answer of [`FileSystem::home`].
    pub closed spec fn answer(self) -> Option<String> {
        self.answer
    }
}

/// Ask for the home directory; returns the answer and its record.
pub fn ask_home<F: FileSystem>(fs: &F) -> (r: (Option<String>, Ghost<HomeAnswer>))
    ensures
        r.1@.answer() == r.0,
{
    let a = fs.home();
    let ghost g = HomeAnswer { answer: a };
    (a, Ghost(g))
}

/// What the filesystem answered when asked whether a path is a regular
/// file. The fields are private: a question is recorded only by
/// [`probe_file`], from the answer the filesystem gave.
pub struct Probe {
    path: Seq<char>,
    is_file: bool,
}

impl Probe {
    /// The path asked about.
    pub closed spec fn path_asked(self) -> Seq<char> {
        self.path
    }

    /// The answer of [`FileSystem::is_file`].
    pub closed spec fn reported_file(self) -> bool {
        self.is_file
    }
}

/// Ask whether `path` is a regular file; returns the answer and its record.
pub fn probe_file<F: FileSystem>(fs: &F, path: &str) -> (r: (bool, Ghost<Probe>))
    ensures
        r.1@.path_asked() == path@,
        r.1@.reported_file() == r.0,
{
    let f = fs.is_file(path);
    (f, Ghost(Probe { path: path@, is_file: f }))
}

} // verus!
