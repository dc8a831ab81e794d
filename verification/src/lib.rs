//! Rendering of path strings under anchor forms (home, base, parent, git,
//! absolute, relative-to, VCS permalink), with the rules of the command-line
//! tool around them: operand validation, glob-pattern checks, anchor
//! selection and the parsing of Git metadata.
use vstd::prelude::*;

pub mod anchor;
pub mod app;
pub mod cli;
pub mod clipboard;
pub mod error;
pub mod fs;
pub mod gitroot;
pub mod glob;
pub mod path;
pub mod resolve;
pub mod text;
pub mod vcs;

pub use anchor::{Anchor, AnchorRenderer, RenderContext};
pub use app::App;
pub use cli::Cli;
pub use clipboard::{BufferSink, Clipboard, FakeClipboard, OutputSink};
pub use error::YankError;
pub use fs::FileSystem;
pub use gitroot::{GitRootDetector, WalkUpGitRootDetector};
pub use vcs::{RemoteVerifier, VcsInfo, VcsInfoProvider, VerifyOutcome};

verus! {
} // verus!
