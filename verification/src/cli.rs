//! Command-line options and the resolution of the anchor they select.
//!
//! The argument parser itself lives with the binary; this is the value it
//! produces and the semantic checks made on it.
use vstd::prelude::*;

use vstd::std_specs::convert::FromSpecImpl;

use crate::anchor::Anchor;
use crate::error::YankError;

verus! {

/// Parsed command-line options.
#[derive(Debug, Clone)]
pub struct Cli {
    /// Path operands. When empty (and no `--glob` is given) the pipeline
    /// uses `.`.
    pub paths: Vec<String>,
    /// `--from`: home, base, parent or git.
    pub from: Option<FromAnchor>,
    /// `--relative-to`: base directory.
    pub relative_to: Option<String>,
    /// `--absolute`.
    pub absolute: bool,
    /// `--glob` patterns (single-level).
    pub glob: Vec<String>,
    /// `--print`: also write the rendered paths to stdout.
    pub print: bool,
    /// `--no-copy`: never touch the clipboard.
    pub no_copy: bool,
    /// `--vcs`: render VCS permalinks.
    pub vcs: bool,
    /// `--vcs-remote`: remote name (default `origin`).
    pub vcs_remote: Option<String>,
    /// `--vcs-default-branch`: branch used when falling back.
    pub vcs_default_branch: Option<String>,
    /// `--vcs-branch-fallback`: use a branch when no SHA is known.
    pub vcs_branch_fallback: bool,
    /// `--vcs-verify`: check the ref against the remote.
    pub vcs_verify: bool,
}

/// `--from` values (`basename` and `dirname` are accepted as aliases of
/// `base` and `parent` by the parser).
#[derive(Debug, Clone, Copy, PartialEq, Eq)]
pub enum FromAnchor {
    /// `~/...` form when the target is inside the home directory.
    Home,
    /// Anchor at the cwd's name.
    Base,
    /// Anchor at `<parent>/<cwd>`.
    Parent,
    /// Anchor at the enclosing Git repository root.
    Git,
}

/// The anchor a `--from` value names.
pub open spec fn from_anchor_spec(v: FromAnchor) -> Anchor {
    match v {
        FromAnchor::Home => Anchor::Home,
        FromAnchor::Base => Anchor::Base,
        FromAnchor::Parent => Anchor::Parent,
        FromAnchor::Git => Anchor::Git,
    }
}

impl From<FromAnchor> for Anchor {
    fn from(value: FromAnchor) -> (r: Self) {
        match value {
            FromAnchor::Home => Anchor::Home,
            FromAnchor::Base => Anchor::Base,
            FromAnchor::Parent => Anchor::Parent,
            FromAnchor::Git => Anchor::Git,
        }
    }
}

impl FromSpecImpl<FromAnchor> for Anchor {
    open spec fn obeys_from_spec() -> bool {
        true
    }

    open spec fn from_spec(v: FromAnchor) -> Anchor {
        from_anchor_spec(v)
    }
}

/// How many of the mutually exclusive anchor options are set.
pub open spec fn anchor_option_count(cli: Cli) -> int {
    (if cli.from is Some { 1int } else { 0 }) + (if cli.absolute { 1int } else { 0 }) + (
    if cli.relative_to is Some { 1int } else { 0 }) + (if cli.vcs { 1int } else { 0 })
}

impl Cli {
    /// Resolve the anchor choice: `ConflictingAnchors` when more than one of
    /// `--from`, `--absolute`, `--relative-to` and `--vcs` is set; the one
    /// that is set otherwise; `Home` when none is.
    pub fn anchor(&self) -> (r: Result<Anchor, YankError>)
        ensures
            anchor_option_count(*self) > 1 ==> r matches Err(YankError::ConflictingAnchors),
            anchor_option_count(*self) <= 1 ==> match self.from {
                Some(f) => r == Ok::<Anchor, YankError>(from_anchor_spec(f)),
                None => if self.absolute {
                    r == Ok::<Anchor, YankError>(Anchor::Absolute)
                } else {
                    match self.relative_to {
                        Some(b) => r matches Ok(Anchor::RelativeTo(x)) && x@ == b@,
                        None => if self.vcs {
                            r == Ok::<Anchor, YankError>(Anchor::Vcs)
                        } else {
                            r == Ok::<Anchor, YankError>(Anchor::Home)
                        },
                    }
                },
            },
    {
        let mut count: u32 = 0;
        if self.from.is_some() {
            count += 1;
        }
        if self.absolute {
            count += 1;
        }
        if self.relative_to.is_some() {
            count += 1;
        }
        if self.vcs {
            count += 1;
        }
        if count > 1 {
            return Err(YankError::ConflictingAnchors);
        }
        if let Some(from) = self.from {
            return Ok(from.into());
        }
        if self.absolute {
            return Ok(Anchor::Absolute);
        }
        if let Some(base) = &self.relative_to {
            return Ok(Anchor::RelativeTo(base.clone()));
        }
        if self.vcs {
            return Ok(Anchor::Vcs);
        }
        Ok(Anchor::Home)
    }
}

} // verus!
