//! Anchor engine.
//!
//! An [`Anchor`] selects how a target path is rendered as a string: `~/...`,
//! `basename/...`, `parent/basename/...`, repo-relative, absolute, relative
//! to a base directory, or a VCS permalink. [`render_recorded`] renders a
//! target under any non-VCS anchor and records what the filesystem answered
//! on the way; the renderers implementing [`AnchorRenderer`] and the
//! dispatcher [`render_with`] go through it. The VCS anchor has its own
//! renderer, built from resolved metadata.
use vstd::prelude::*;

use crate::error::YankError;
use crate::fs::{look_canonical, look_up, probe_file, FileSystem, Look, Probe};
use crate::anchor::base::{base_anchored, base_anchored_exec, target_model};
use crate::anchor::git::{git_recorded, git_relative};
use crate::anchor::parent::{parent_anchored, parent_anchored_exec};
use crate::anchor::relative_to::{relative_to_recorded, relative_to_spec};
use crate::anchor::home::{collapse_home, home_opt, lemma_home_form_never_climbs};
use crate::path::{
    absolutize, absolutize_spec, dotdot, file_name, is_absolute, is_dotdot,
    lemma_normalize_idempotent, lexical_absolute, normalize_components, normalize_spec,
    normalized, segments, PathParts,
};
use crate::text::{chars_of, extend_chars, string_of};

pub mod absolute;
pub mod base;
pub mod git;
pub mod home;
pub mod parent;
pub mod relative_to;
pub mod vcs;

pub use absolute::AbsoluteRenderer;
pub use base::BaseRenderer;
pub use git::GitRenderer;


pub use home::HomeRenderer;
pub use parent::ParentRenderer;
pub use relative_to::RelativeToRenderer;
pub use vcs::VcsRenderer;



verus! {

/// Anchor selection: one variant per anchor option of the command line.
#[derive(Debug, Clone, PartialEq, Eq)]
pub enum Anchor {
    /// `~/...` when the target is inside the home directory; absolute
    /// otherwise.
    Home,
    /// Leading segment is the name of the current directory.
    Base,
    /// Leading segments are `<parent-dir-name>/<cwd-dir-name>`.
    Parent,
    /// Path relative to the enclosing Git repository root.
    Git,
    /// Absolute path.
    Absolute,
    /// Path relative to a user-supplied base directory.
    RelativeTo(String),
    /// VCS remote permalink.
    Vcs,
}

/// Read-only context passed to every renderer.
pub struct RenderContext<'a, F: FileSystem> {
    /// Current working directory (already resolved).
    pub cwd: String,
    /// User home directory, if known.
    pub home: Option<String>,
    /// Git repository root, if discoverable.
    pub git_root: Option<String>,
    /// Filesystem for the renderers that consult the disk.
    pub fs: &'a F,
}

/// Render a single target path under one anchor.
pub trait AnchorRenderer {
    /// Render `target` as a string under this renderer's anchor.
    fn render<F: FileSystem>(&self, target: &str, ctx: &RenderContext<'_, F>) -> (r: Result<
        String,
        YankError,
    >);
}

/// The lexical absolute form of `target` against `cwd`: joined to `cwd`
/// when relative, then normalised.
pub fn absolute_lexical(target: &str, cwd: &str) -> (r: String)
    ensures
        r@ == lexical_absolute(target@, cwd@),
{
    let joined = absolutize(target, cwd);
    normalize_components(&joined)
}

/// The absolute form of `target` given what the filesystem said of it: its
/// canonical form when one was obtained, its lexical absolute form against
/// `cwd` otherwise.
pub fn absolute_from(target: &str, cwd: &str, canonical: Option<String>) -> (r: String)
    ensures
        r@ == match canonical {
            Some(c) => c@,
            None => lexical_absolute(target@, cwd@),
        },
{
    match canonical {
        Some(c) => c,
        None => absolute_lexical(target, cwd),
    }
}

/// The absolute form of `t` against `cwd` given the canonical form `c` the
/// filesystem gave (`None` when it reported the target missing or gave no
/// canonical form).
pub open spec fn absolute_spec(t: Seq<char>, cwd: Seq<char>, c: Option<Seq<char>>) -> Seq<char> {
    match c {
        Some(c) => c,
        None => lexical_absolute(t, cwd),
    }
}

/// Render `target` in absolute form: look it up, and take the canonical
/// form the filesystem gives when it reports the target as existing, the
/// lexical absolute form otherwise ([`absolute_from`]). Returns the record
/// of the look-up too.
pub fn render_absolute<F: FileSystem>(target: &str, ctx: &RenderContext<'_, F>) -> (r: (
    String,
    Ghost<Look>,
))
    ensures
        r.1@.path_asked() == target@,
        r.0@ == absolute_spec(target@, ctx.cwd@, look_canonical(r.1@)),
{
    let (_, canonical, look) = look_up(ctx.fs, target);
    (absolute_from(target, ctx.cwd.as_str(), canonical), look)
}

// ---------------------------------------------------------------------------
// Bare names
// ---------------------------------------------------------------------------

/// Whether a relative rendering is a single name: no separator, and neither
/// `.` nor `..`.
pub open spec fn is_bare(s: Seq<char>) -> bool {
    &&& !s.contains('/')
    &&& s != seq!['.']
    &&& s != dotdot()
}

/// `name` placed under the directory `dir`: the directory's name, a
/// separator and `name`; `/name` when the directory has no name.
pub open spec fn under_dir(dir: (bool, Seq<Seq<char>>), name: Seq<char>) -> Seq<char> {
    match file_name(dir) {
        Some(d) => d + seq!['/'] + name,
        None => seq!['/'] + name,
    }
}

/// The answer recorded for an `is_file` question, `false` when none was
/// asked.
pub open spec fn file_answer(q: Option<Probe>) -> bool {
    match q {
        Some(p) => p.reported_file(),
        None => false,
    }
}

/// A relative rendering `x` of a target inside `dir`, with a bare name
/// reported as a regular file placed under `dir`.
pub open spec fn contained(x: Seq<char>, dir: (bool, Seq<Seq<char>>), file: bool) -> Seq<char> {
    if file && is_bare(x) {
        under_dir(dir, x)
    } else {
        x
    }
}

/// Whether `s` renders the relative form `x` of target `t` (against `cwd`)
/// inside `dir`, given the recorded `is_file` question `q`: asked, of the
/// absolute target, exactly when `x` is a bare name.
pub open spec fn placed(
    x: Seq<char>,
    dir: (bool, Seq<Seq<char>>),
    t: Seq<char>,
    cwd: Seq<char>,
    q: Option<Probe>,
    s: Seq<char>,
) -> bool {
    &&& (q is Some) == is_bare(x)
    &&& q matches Some(p) ==> p.path_asked() == absolutize_spec(t, cwd)
    &&& s == contained(x, dir, file_answer(q))
}

/// [`is_bare`], computed.
fn is_bare_exec(s: &Vec<char>) -> (r: bool)
    ensures
        r == is_bare(s@),
{
    let mut i: usize = 0;
    while i < s.len()
        invariant
            i <= s.len(),
            forall|j: int| 0 <= j < i ==> s@[j] != '/',
        decreases s.len() - i,
    {
        if s[i] == '/' {
            assert(s@[i as int] == '/');
            assert(s@.contains('/'));
            return false;
        }
        i += 1;
    }
    assert(!s@.contains('/'));
    let dot = s.len() == 1 && s[0] == '.';
    let dots = s.len() == 2 && s[0] == '.' && s[1] == '.';
    proof {
        if dot {
            assert(s@ =~= seq!['.']);
        }
        if dots {
            assert(s@ =~= dotdot());
        }
        if s@ == seq!['.'] {
            assert(s@.len() == 1 && s@[0] == '.');
        }
        if s@ == dotdot() {
            assert(s@.len() == 2 && s@[0] == '.' && s@[1] == '.');
        }
    }
    !dot && !dots
}

/// [`under_dir`], computed.
fn under_dir_exec(dir: &PathParts, name: &Vec<char>) -> (r: Vec<char>)
    ensures
        r@ == under_dir(dir.model(), name@),
{
    let n = dir.segments.len();
    let mut out: Vec<char> = if n > 0 && !is_dotdot(&dir.segments[n - 1]) {
        let d = dir.segments[n - 1].clone();
        assert(d@ == dir.model().1.last());
        d
    } else {
        Vec::new()
    };
    let ghost lead = out@;
    out.push('/');
    extend_chars(&mut out, name.as_slice());
    proof {
        match file_name(dir.model()) {
            Some(d) => {
                assert(lead == d);
                assert(out@ =~= d + seq!['/'] + name@);
            },
            None => {
                assert(lead =~= Seq::<char>::empty());
                assert(out@ =~= seq!['/'] + name@);
            },
        }
    }
    out
}

/// Place the relative rendering `x` of `target` inside `dir`: when `x` is
/// a bare name, ask the filesystem whether the target (against `cwd`) is a
/// regular file, and if so put the directory's name in front. Returns the
/// rendering and the recorded question.
pub fn place_bare<F: FileSystem>(
    x: String,
    dir: &PathParts,
    target: &str,
    cwd: &str,
    fs: &F,
) -> (r: (String, Ghost<Option<Probe>>))
    ensures
        placed(x@, dir.model(), target@, cwd@, r.1@, r.0@),
{
    let xs = chars_of(x.as_str());
    if !is_bare_exec(&xs) {
        return (x, Ghost(None));
    }
    let abs = absolutize(target, cwd);
    let (f, probe) = probe_file(fs, abs.as_str());
    if f {
        let placed_name = under_dir_exec(dir, &xs);
        (string_of(placed_name.as_slice()), Ghost(Some(probe@)))
    } else {
        (x, Ghost(Some(probe@)))
    }
}

// ---------------------------------------------------------------------------
// Rendering with recorded answers
// ---------------------------------------------------------------------------

/// What rendering one target asked of the filesystem.
pub struct Answers {
    /// The look-up of the target, when its absolute form was needed.
    pub look: Option<Look>,
    /// The path asked whether it is a regular file, with the answer, when a
    /// bare relative name had to be placed.
    pub is_file: Option<Probe>,
}

/// The canonical form the recorded look-up yields, if any.
pub open spec fn answers_canonical(ans: Answers) -> Option<Seq<char>> {
    match ans.look {
        Some(l) => look_canonical(l),
        None => None,
    }
}

/// For the anchors that render relative to a directory (Git, RelativeTo):
/// the relative rendering and the directory; `None` for the other anchors
/// and for a target outside the repository.
pub open spec fn relative_rendering(
    a: Anchor,
    t: Seq<char>,
    cwd: Seq<char>,
    git_root: Option<String>,
) -> Option<(Seq<char>, (bool, Seq<Seq<char>>))> {
    match a {
        Anchor::Git => match git_root {
            Some(root) => match git_relative(t, cwd, root@) {
                Some(x) => Some((x, normalized(root@))),
                None => None,
            },
            None => None,
        },
        Anchor::RelativeTo(b) => Some((relative_to_spec(t, cwd, b@), target_model(b@, cwd))),
        _ => None,
    }
}

/// Whether rendering `t` under `a` needs its absolute form.
pub open spec fn needs_absolute(a: Anchor, t: Seq<char>, cwd: Seq<char>) -> bool {
    match a {
        Anchor::Home => true,
        Anchor::Absolute => true,
        Anchor::Base => base_anchored(t, cwd) is None,
        Anchor::Parent => parent_anchored(t, cwd) is None,
        _ => false,
    }
}

/// Whether `ans` holds exactly the questions that rendering `t` under `a`
/// asks: a look-up of `t` when its absolute form is needed, and whether its
/// absolute form is a regular file when its relative rendering is a bare
/// name.
pub open spec fn answers_fit(
    a: Anchor,
    t: Seq<char>,
    cwd: Seq<char>,
    git_root: Option<String>,
    ans: Answers,
) -> bool {
    &&& (ans.look is Some) == needs_absolute(a, t, cwd)
    &&& ans.look matches Some(l) ==> l.path_asked() == t
    &&& (ans.is_file is Some) == (relative_rendering(a, t, cwd, git_root) matches Some(p) && is_bare(
        p.0,
    ))
    &&& ans.is_file matches Some(q) ==> q.path_asked() == absolutize_spec(t, cwd)
}

/// The rendering of `t` under `a` given the filesystem's answers `ans`;
/// `None` when the anchor refuses the target.
pub open spec fn rendered_spec(
    a: Anchor,
    t: Seq<char>,
    cwd: Seq<char>,
    home: Option<String>,
    git_root: Option<String>,
    ans: Answers,
) -> Option<Seq<char>> {
    let abs = absolute_spec(t, cwd, answers_canonical(ans));
    match a {
        Anchor::Home => Some(home_opt(abs, home)),
        Anchor::Absolute => Some(abs),
        Anchor::Base => Some(
            match base_anchored(t, cwd) {
                Some(x) => x,
                None => abs,
            },
        ),
        Anchor::Parent => Some(
            match parent_anchored(t, cwd) {
                Some(x) => x,
                None => abs,
            },
        ),
        Anchor::Vcs => None,
        _ => match relative_rendering(a, t, cwd, git_root) {
            Some(p) => Some(contained(p.0, p.1, file_answer(ans.is_file))),
            None => None,
        },
    }
}

/// Whether `r` is the result of rendering `t` under `a` with the answers
/// `ans`: the rendering when there is one; otherwise a VCS error for the
/// VCS anchor and `NotInRepo` for the Git anchor.
pub open spec fn renders_by(
    a: Anchor,
    t: Seq<char>,
    cwd: Seq<char>,
    home: Option<String>,
    git_root: Option<String>,
    ans: Answers,
    r: Result<String, YankError>,
) -> bool {
    match rendered_spec(a, t, cwd, home, git_root, ans) {
        Some(x) => r matches Ok(s) && s@ == x,
        None => if a is Vcs {
            r matches Err(YankError::Vcs(_))
        } else {
            r matches Err(YankError::NotInRepo)
        },
    }
}

/// No anchor renders a target the filesystem reports as a regular file as a
/// bare name: where a relative rendering would be a single name (Git,
/// RelativeTo), the directory's name (or `/`) is put in front, so the
/// rendering holds a separator.
pub proof fn lemma_reported_file_keeps_a_directory(
    a: Anchor,
    t: Seq<char>,
    cwd: Seq<char>,
    home: Option<String>,
    git_root: Option<String>,
    ans: Answers,
)
    requires
        answers_fit(a, t, cwd, git_root, ans),
        file_answer(ans.is_file),
        rendered_spec(a, t, cwd, home, git_root, ans) is Some,
    ensures
        rendered_spec(a, t, cwd, home, git_root, ans).unwrap().contains('/'),
{
    let p = relative_rendering(a, t, cwd, git_root).unwrap();
    let s = rendered_spec(a, t, cwd, home, git_root, ans).unwrap();
    assert(s == under_dir(p.1, p.0));
    match file_name(p.1) {
        Some(d) => {
            assert(s[d.len() as int] == '/');
        },
        None => {
            assert(s[0] == '/');
        },
    }
}

/// The home anchor never renders a `~/..` form: when the absolute form is
/// the lexical one (against an absolute working directory or of an absolute
/// target), or a canonical form the filesystem gave in normal absolute
/// form, a `~/...` rendering has no `..` segment.
pub proof fn lemma_home_rendering_never_climbs(
    t: Seq<char>,
    cwd: Seq<char>,
    home: Option<String>,
    git_root: Option<String>,
    ans: Answers,
)
    requires
        is_absolute(absolutize_spec(t, cwd)),
        answers_canonical(ans) matches Some(c) ==> is_absolute(c) && normalize_spec(c) == c,
    ensures
        ({
            let s = rendered_spec(Anchor::Home, t, cwd, home, git_root, ans).unwrap();
            s.len() >= 2 && s[0] == '~' && s[1] == '/' ==> forall|k: int|
                0 <= k < segments(s.subrange(2, s.len() as int)).len() ==> #[trigger] segments(
                    s.subrange(2, s.len() as int),
                )[k] != dotdot()
        }),
{
    let abs = absolute_spec(t, cwd, answers_canonical(ans));
    if answers_canonical(ans) is None {
        lemma_normalize_idempotent(absolutize_spec(t, cwd));
    }
    match home {
        Some(h) => lemma_home_form_never_climbs(abs, h@),
        None => {},
    }
}

/// The dispatcher and the renderers agree: with the same answers of the
/// filesystem, any two results that render a target under one anchor are
/// the same rendering, or both the anchor's refusal.
pub proof fn lemma_rendering_follows_from_answers(
    a: Anchor,
    t: Seq<char>,
    cwd: Seq<char>,
    home: Option<String>,
    git_root: Option<String>,
    ans: Answers,
    r1: Result<String, YankError>,
    r2: Result<String, YankError>,
)
    requires
        renders_by(a, t, cwd, home, git_root, ans, r1),
        renders_by(a, t, cwd, home, git_root, ans, r2),
    ensures
        (r1 is Ok) == (r2 is Ok),
        r1 matches Ok(x) ==> (r2 matches Ok(y) && x@ == y@),
        r1 is Err ==> (r1 matches Err(YankError::NotInRepo)) == (r2 matches Err(
            YankError::NotInRepo,
        )),
{
}

/// Render `target` under `anchor`, returning the answers the filesystem
/// gave on the way. The rendering is [`rendered_spec`] of exactly those
/// answers.
pub fn render_recorded<F: FileSystem>(anchor: &Anchor, target: &str, ctx: &RenderContext<'_, F>) -> (res: (
    Result<String, YankError>,
    Ghost<Answers>,
))
    ensures
        answers_fit(*anchor, target@, ctx.cwd@, ctx.git_root, res.1@),
        renders_by(*anchor, target@, ctx.cwd@, ctx.home, ctx.git_root, res.1@, res.0),
{
    match anchor {
        Anchor::Home => {
            let (abs, look) = render_absolute(target, ctx);
            (Ok(collapse_home(abs.as_str(), &ctx.home)), Ghost(Answers { look: Some(look@), is_file: None }))
        },
        Anchor::Absolute => {
            let (abs, look) = render_absolute(target, ctx);
            (Ok(abs), Ghost(Answers { look: Some(look@), is_file: None }))
        },
        Anchor::Base => match base_anchored_exec(target, ctx.cwd.as_str()) {
            Some(s) => (Ok(s), Ghost(Answers { look: None, is_file: None })),
            None => {
                let (abs, look) = render_absolute(target, ctx);
                (Ok(abs), Ghost(Answers { look: Some(look@), is_file: None }))
            },
        },
        Anchor::Parent => match parent_anchored_exec(target, ctx.cwd.as_str()) {
            Some(s) => (Ok(s), Ghost(Answers { look: None, is_file: None })),
            None => {
                let (abs, look) = render_absolute(target, ctx);
                (Ok(abs), Ghost(Answers { look: Some(look@), is_file: None }))
            },
        },
        Anchor::Git => {
            let (r, q) = git_recorded(target, ctx);
            (r, Ghost(Answers { look: None, is_file: q@ }))
        },
        Anchor::RelativeTo(base) => {
            let (s, q) = relative_to_recorded(base.as_str(), target, ctx);
            (Ok(s), Ghost(Answers { look: None, is_file: q@ }))
        },
        Anchor::Vcs => (
            Err(YankError::Vcs(String::from_str("the VCS anchor needs resolved VCS metadata"))),
            Ghost(Answers { look: None, is_file: None }),
        ),
    }
}

/// Dispatcher: render `target` under `anchor` ([`render_recorded`]); the
/// result is the rendering for some answers of the filesystem that fit the
/// questions the anchor asks.
///
/// The VCS anchor needs resolved metadata and has no renderer here (see
/// [`VcsRenderer`]); asking for it is a VCS error.
pub fn render_with<F: FileSystem>(anchor: &Anchor, target: &str, ctx: &RenderContext<'_, F>) -> (r:
    Result<String, YankError>)
    ensures
        exists|ans: Answers|
            #[trigger] answers_fit(*anchor, target@, ctx.cwd@, ctx.git_root, ans) && renders_by(
                *anchor,
                target@,
                ctx.cwd@,
                ctx.home,
                ctx.git_root,
                ans,
                r,
            ),
{
    let (r, ans) = render_recorded(anchor, target, ctx);
    assert(answers_fit(*anchor, target@, ctx.cwd@, ctx.git_root, ans@));
    r
}

} // verus!
