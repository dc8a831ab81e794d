//! Git anchor renderer: the path relative to the repository root.
//!
//! Requires `ctx.git_root`; a missing root, or a target outside the
//! repository, is [`YankError::NotInRepo`].
use vstd::prelude::*;

use crate::anchor::base::target_model;
use crate::anchor::{
    answers_fit, place_bare, placed, render_recorded, renders_by, Anchor, AnchorRenderer, Answers,
    RenderContext,
};
use crate::error::YankError;
use crate::fs::{FileSystem, Probe};
use crate::path::{
    absolutize_spec, comps, dotdot, keeps, lemma_normalized_clean, lemma_rest_below,
    lemma_segments_of_join, scan, segments,
    absolutize, join_exec, join_segs, normalize_parts, normalized, same_parts, same_path,
    strip_parts, strip_spec, PathParts,
};
use crate::text::{chars_of, string_of};

verus! {

/// The path of the normalised target relative to the normalised `root`:
/// `.` when they are the same path, the remaining segments when the target
/// lies below, `None` when it lies outside.
pub open spec fn relative_below(
    target: (bool, Seq<Seq<char>>),
    root: (bool, Seq<Seq<char>>),
) -> Option<Seq<char>> {
    if same_path(target, root) {
        Some(seq!['.'])
    } else {
        match strip_spec(target, root) {
            Some(rest) => Some(join_segs(rest)),
            None => None,
        }
    }
}

/// The repo-relative rendering of `t` against `root`, or `None` when `t`
/// lies outside the repository.
pub open spec fn git_relative(t: Seq<char>, cwd: Seq<char>, root: Seq<char>) -> Option<Seq<char>> {
    relative_below(target_model(t, cwd), normalized(root))
}

/// The Git anchor renders only what lies in the repository: a rendering
/// exists exactly when the root's components begin the target's; it is `.`
/// for the root itself and otherwise the target's remaining components,
/// none of which is `..` (for a root that is absolute, or that does not end
/// in `..`). Every other target is `NotInRepo`.
pub proof fn lemma_git_renders_only_inside(t: Seq<char>, cwd: Seq<char>, root: Seq<char>)
    ensures
        ({
            let tm = target_model(t, cwd);
            let r = normalized(root);
            let tc = comps(tm.0, tm.1);
            let rc = comps(r.0, r.1);
            &&& (git_relative(t, cwd, root) is Some) == (rc.len() <= tc.len() && tc.subrange(
                0,
                rc.len() as int,
            ) == rc)
            &&& git_relative(t, cwd, root) matches Some(x) ==> {
                &&& tc == rc ==> x == seq!['.']
                &&& tc != rc ==> segments(x) == tc.subrange(rc.len() as int, tc.len() as int)
                &&& (r.0 || r.1.len() == 0 || r.1.last() != dotdot()) ==> forall|k: int|
                    0 <= k < segments(x).len() ==> #[trigger] segments(x)[k] != dotdot()
            }
        }),
{
    let tm = target_model(t, cwd);
    let r = normalized(root);
    let tc = comps(tm.0, tm.1);
    let rc = comps(r.0, r.1);
    if rc.len() <= tc.len() && tc.subrange(0, rc.len() as int) == rc {
        let rest = tc.subrange(rc.len() as int, tc.len() as int);
        lemma_normalized_clean(root);
        lemma_rest_below(absolutize_spec(t, cwd), r);
        if same_path(tm, r) {
            assert(tc == rc);
            let dot = seq!['.'];
            let e = Seq::<char>::empty();
            assert(dot.drop_last() =~= e);
            assert(scan(e) == (Seq::<Seq<char>>::empty(), e));
            assert(e.push('.') =~= dot);
            assert(scan(dot) == (Seq::<Seq<char>>::empty(), dot));
            assert(segments(dot) == Seq::<Seq<char>>::empty()) by {
                assert(!keeps(dot));
            }
        } else {
            assert(tc != rc);
            assert(strip_spec(tm, r) == Some(rest));
            lemma_segments_of_join(rest);
        }
    } else {
        assert(!same_path(tm, r)) by {
            if same_path(tm, r) {
                assert(tc.subrange(0, rc.len() as int) =~= rc);
            }
        }
    }
}

/// [`relative_below`], computed.
pub fn relative_below_exec(n: &PathParts, root: &PathParts) -> (r: Option<String>)
    ensures
        match r {
            Some(s) => relative_below(n.model(), root.model()) == Some(s@),
            None => relative_below(n.model(), root.model()) is None,
        },
{
    if same_parts(n, root) {
        let mut d: Vec<char> = Vec::new();
        d.push('.');
        assert(d@ =~= seq!['.']);
        return Some(string_of(d.as_slice()));
    }
    match strip_parts(n, root) {
        Some(rest) => {
            let j = join_exec(&rest);
            Some(string_of(j.as_slice()))
        },
        None => None,
    }
}

/// [`git_relative`], computed.
pub fn git_relative_exec(target: &str, cwd: &str, root: &str) -> (r: Option<String>)
    ensures
        match r {
            Some(s) => git_relative(target@, cwd@, root@) == Some(s@),
            None => git_relative(target@, cwd@, root@) is None,
        },
{
    let joined = absolutize(target, cwd);
    let n = normalize_parts(&chars_of(joined.as_str()));
    let r = normalize_parts(&chars_of(root));
    relative_below_exec(&n, &r)
}

/// Render `target` relative to `ctx.git_root` ([`git_relative`]), placing
/// a bare name reported as a regular file under the root's name
/// ([`place_bare`]); returns the recorded `is_file` question too.
/// `NotInRepo` without a root or for a target outside it.
pub fn git_recorded<F: FileSystem>(target: &str, ctx: &RenderContext<'_, F>) -> (res: (
    Result<String, YankError>,
    Ghost<Option<Probe>>,
))
    ensures
        match ctx.git_root {
            None => res.0 matches Err(YankError::NotInRepo) && res.1@ is None,
            Some(root) => match git_relative(target@, ctx.cwd@, root@) {
                Some(x) => res.0 matches Ok(s) && placed(
                    x,
                    normalized(root@),
                    target@,
                    ctx.cwd@,
                    res.1@,
                    s@,
                ),
                None => res.0 matches Err(YankError::NotInRepo) && res.1@ is None,
            },
        },
{
    let git_root = match &ctx.git_root {
        Some(r) => r,
        None => {
            return (Err(YankError::NotInRepo), Ghost(None));
        },
    };
    match git_relative_exec(target, ctx.cwd.as_str(), git_root.as_str()) {
        Some(x) => {
            let dir = normalize_parts(&chars_of(git_root.as_str()));
            let (s, q) = place_bare(x, &dir, target, ctx.cwd.as_str(), ctx.fs);
            (Ok(s), q)
        },
        None => (Err(YankError::NotInRepo), Ghost(None)),
    }
}

/// Renderer for [`crate::anchor::Anchor::Git`].
pub struct GitRenderer;

impl AnchorRenderer for GitRenderer {
    /// [`git_recorded`]: the repository-relative rendering for some answer
    /// of the filesystem; `NotInRepo` without a root or for a target
    /// outside it.
    fn render<F: FileSystem>(&self, target: &str, ctx: &RenderContext<'_, F>) -> (r: Result<
        String,
        YankError,
    >)
        ensures
            exists|ans: Answers|
                #[trigger] answers_fit(Anchor::Git, target@, ctx.cwd@, ctx.git_root, ans)
                    && renders_by(Anchor::Git, target@, ctx.cwd@, ctx.home, ctx.git_root, ans, r),
    {
        let (r, ans) = render_recorded(&Anchor::Git, target, ctx);
        assert(answers_fit(Anchor::Git, target@, ctx.cwd@, ctx.git_root, ans@));
        r
    }
}

} // verus!
