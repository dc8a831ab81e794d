//! Error type of the path-yanking pipeline.
//!
//! Each variant maps to a distinct process exit code, so callers and scripts
//! can tell failure categories apart.
use vstd::prelude::*;

use vstd::std_specs::convert::FromSpecImpl;

use crate::text::{join_sep, join_strings, strings_view};

verus! {

/// `std::io::Error`, carried through the library unopened.
#[verifier::external_type_specification]
#[verifier::external_body]
pub struct ExIoError(std::io::Error);

/// Errors produced by the pipeline.
#[derive(Debug)]
pub enum YankError {
    /// A path operand did not exist on disk (strict validation).
    NotFound(String),
    /// `--from git` was requested but no `.git` ancestor was found.
    NotInRepo,
    /// A `--glob` pattern contained `**`.
    RecursiveGlobRejected(String),
    /// A `--glob` pattern contained `/`.
    GlobHasSlash(String),
    /// The `--glob` patterns produced no match at all.
    GlobNoMatch(Vec<String>),
    /// More than one anchor option was supplied.
    ConflictingAnchors,
    /// The clipboard backend could not be used.
    ClipboardUnavailable(String),
    /// An I/O error.
    Io(std::io::Error),
    /// Misuse not covered by another variant.
    InvalidUsage(String),
    /// A VCS operation failed (no remote, unparseable URL, ...).
    Vcs(String),
}

impl YankError {
    /// The exit code of each error category.
    pub open spec fn spec_exit_code(&self) -> i32 {
        match self {
            YankError::NotFound(_) => 2,
            YankError::NotInRepo => 3,
            YankError::RecursiveGlobRejected(_) => 4,
            YankError::GlobHasSlash(_) => 5,
            YankError::GlobNoMatch(_) => 6,
            YankError::ConflictingAnchors => 7,
            YankError::ClipboardUnavailable(_) => 8,
            YankError::Io(_) => 10,
            YankError::InvalidUsage(_) => 11,
            YankError::Vcs(_) => 12,
        }
    }

    /// Process exit code corresponding to this error category.
    pub fn exit_code(&self) -> (c: i32)
        ensures
            c == self.spec_exit_code(),
    {
        match self {
            YankError::NotFound(_) => 2,
            YankError::NotInRepo => 3,
            YankError::RecursiveGlobRejected(_) => 4,
            YankError::GlobHasSlash(_) => 5,
            YankError::GlobNoMatch(_) => 6,
            YankError::ConflictingAnchors => 7,
            YankError::ClipboardUnavailable(_) => 8,
            YankError::Io(_) => 10,
            YankError::InvalidUsage(_) => 11,
            YankError::Vcs(_) => 12,
        }
    }
}

/// The text of an I/O error.
///
/// Trusted: calls `ToString::to_string` on `std::io::Error`, whose text
/// comes from the operating system; nothing is claimed of it.
#[verifier::external_body]
fn io_error_text(e: &std::io::Error) -> (r: String) {
    e.to_string()
}

/// The message of every error but `Io`, whose text comes from the system.
pub open spec fn message_spec(e: YankError) -> Seq<char> {
    match e {
        YankError::NotFound(p) => "path does not exist: "@ + p@,
        YankError::NotInRepo => "not inside a Git repository (no .git ancestor)"@,
        YankError::RecursiveGlobRejected(p) => "recursive glob rejected (contains '**'): "@ + p@
            + "; v1 supports single-level globs only"@,
        YankError::GlobHasSlash(p) => "glob may not contain '/': "@ + p@
            + "; single-level patterns only"@,
        YankError::GlobNoMatch(ps) => "no files matched glob pattern(s): "@ + join_sep(
            strings_view(ps@),
            ", "@,
        ),
        YankError::ConflictingAnchors => "--from, --absolute, --relative-to and --vcs are mutually exclusive"@,
        YankError::ClipboardUnavailable(m) => "clipboard backend unavailable: "@ + m@,
        YankError::Io(_) => "I/O error: "@,
        YankError::InvalidUsage(m) => "invalid usage: "@ + m@,
        YankError::Vcs(m) => "VCS error: "@ + m@,
    }
}

impl YankError {
    /// The human-readable message of the error.
    pub fn message(&self) -> (r: String)
        ensures
            !(self is Io) ==> r@ == message_spec(*self),
            self is Io ==> r@.len() >= message_spec(*self).len() && r@.subrange(
                0,
                message_spec(*self).len() as int,
            ) == message_spec(*self),
    {
        match self {
            YankError::NotFound(p) => {
                let mut m = String::from_str("path does not exist: ");
                m.append(p.as_str());
                m
            },
            YankError::NotInRepo => String::from_str("not inside a Git repository (no .git ancestor)"),
            YankError::RecursiveGlobRejected(p) => {
                let mut m = String::from_str("recursive glob rejected (contains '**'): ");
                m.append(p.as_str());
                m.append("; v1 supports single-level globs only");
                m
            },
            YankError::GlobHasSlash(p) => {
                let mut m = String::from_str("glob may not contain '/': ");
                m.append(p.as_str());
                m.append("; single-level patterns only");
                m
            },
            YankError::GlobNoMatch(ps) => {
                let mut m = String::from_str("no files matched glob pattern(s): ");
                let j = join_strings(ps, ", ");
                m.append(j.as_str());
                m
            },
            YankError::ConflictingAnchors => String::from_str(
                "--from, --absolute, --relative-to and --vcs are mutually exclusive",
            ),
            YankError::ClipboardUnavailable(msg) => {
                let mut m = String::from_str("clipboard backend unavailable: ");
                m.append(msg.as_str());
                m
            },
            YankError::Io(e) => {
                let mut m = String::from_str("I/O error: ");
                let t = io_error_text(e);
                m.append(t.as_str());
                m
            },
            YankError::InvalidUsage(msg) => {
                let mut m = String::from_str("invalid usage: ");
                m.append(msg.as_str());
                m
            },
            YankError::Vcs(msg) => {
                let mut m = String::from_str("VCS error: ");
                m.append(msg.as_str());
                m
            },
        }
    }
}

/// Whether two errors belong to the same category (the same variant).
pub open spec fn same_category(a: YankError, b: YankError) -> bool {
    match (a, b) {
        (YankError::NotFound(_), YankError::NotFound(_)) => true,
        (YankError::NotInRepo, YankError::NotInRepo) => true,
        (YankError::RecursiveGlobRejected(_), YankError::RecursiveGlobRejected(_)) => true,
        (YankError::GlobHasSlash(_), YankError::GlobHasSlash(_)) => true,
        (YankError::GlobNoMatch(_), YankError::GlobNoMatch(_)) => true,
        (YankError::ConflictingAnchors, YankError::ConflictingAnchors) => true,
        (YankError::ClipboardUnavailable(_), YankError::ClipboardUnavailable(_)) => true,
        (YankError::Io(_), YankError::Io(_)) => true,
        (YankError::InvalidUsage(_), YankError::InvalidUsage(_)) => true,
        (YankError::Vcs(_), YankError::Vcs(_)) => true,
        _ => false,
    }
}

/// Exit codes are distinct per category, never zero, and never one.
pub proof fn lemma_exit_codes_distinct(a: YankError, b: YankError)
    ensures
        a.spec_exit_code() == b.spec_exit_code() <==> same_category(a, b),
        a.spec_exit_code() >= 2,
{
}

impl From<std::io::Error> for YankError {
    fn from(value: std::io::Error) -> (r: Self) {
        YankError::Io(value)
    }
}

impl FromSpecImpl<std::io::Error> for YankError {
    open spec fn obeys_from_spec() -> bool {
        true
    }

    open spec fn from_spec(v: std::io::Error) -> YankError {
        YankError::Io(v)
    }
}

} // verus!
