//! Parent anchor renderer: `<parent-dir-name>/<cwd-dir-name>` leads.
//!
//! Targets outside the current directory, or a current directory whose
//! parent has no name, fall back to the absolute form.
use vstd::prelude::*;

use crate::anchor::base::{anchored_under, anchored_under_exec, target_model};
use crate::anchor::{answers_fit, render_recorded, renders_by, Anchor, AnchorRenderer, Answers, RenderContext};
use crate::error::YankError;
use crate::fs::FileSystem;
use crate::path::{
    absolutize, absolutize_spec, clean_seg, comps, dotdot, file_name, is_dotdot,
    lemma_join_prepend, lemma_normalized_clean, lemma_rest_below, lemma_segments_of_join,
    normalize_parts, normalized, parent_of, same_path, segments, strip_spec, sv,
};
use crate::text::chars_of;

verus! {

/// The parent-anchored rendering of `t`, or `None` when the renderer falls
/// back to the absolute form.
pub open spec fn parent_anchored(t: Seq<char>, cwd: Seq<char>) -> Option<Seq<char>> {
    let c = normalized(cwd);
    match (file_name(c), file_name(parent_of(c))) {
        (Some(cn), Some(pn)) => anchored_under(target_model(t, cwd), c, seq![pn, cn]),
        _ => None,
    }
}

/// No parent rendering is a bare file name: it begins with the name of the
/// current directory's parent, a separator, and the current directory's
/// name.
pub proof fn lemma_parent_leads_with_two_names(t: Seq<char>, cwd: Seq<char>, x: Seq<char>)
    requires
        parent_anchored(t, cwd) == Some(x),
    ensures
        file_name(normalized(cwd)) matches Some(cn) && file_name(parent_of(normalized(cwd)))
            matches Some(pn) && pn.len() + 1 + cn.len() <= x.len() && x.subrange(
            0,
            pn.len() as int + 1 + cn.len(),
        ) == pn + seq!['/'] + cn,
{
    let c = normalized(cwd);
    let cn = file_name(c).unwrap();
    let pn = file_name(parent_of(c)).unwrap();
    let tm = target_model(t, cwd);
    let rest = if same_path(tm, c) {
        Seq::<Seq<char>>::empty()
    } else {
        strip_spec(tm, c).unwrap()
    };
    assert(seq![pn, cn] + rest =~= seq![pn] + (seq![cn] + rest));
    assert(rest.len() == 0 ==> seq![pn, cn] + rest =~= seq![pn, cn]);
    lemma_join_prepend(pn, seq![cn] + rest);
    lemma_join_prepend(cn, rest);
    assert(x.subrange(0, pn.len() as int + 1 + cn.len()) =~= pn + seq!['/'] + cn);
}

/// The parent anchor renders only what lies at or below the working
/// directory: a rendering exists exactly when the directory and its parent
/// have names and the directory's components begin the target's; it is
/// then the parent's name, the directory's name and the target's remaining
/// components, and none of its segments is `..`. Every other target falls
/// back to the absolute form.
pub proof fn lemma_parent_renders_only_inside(t: Seq<char>, cwd: Seq<char>)
    ensures
        ({
            let tm = target_model(t, cwd);
            let c = normalized(cwd);
            let tc = comps(tm.0, tm.1);
            let cc = comps(c.0, c.1);
            &&& (parent_anchored(t, cwd) is Some) == (file_name(c) is Some && file_name(
                parent_of(c),
            ) is Some && cc.len() <= tc.len() && tc.subrange(0, cc.len() as int) == cc)
            &&& parent_anchored(t, cwd) matches Some(x) ==> segments(x) == seq![
                c.1[c.1.len() - 2],
                c.1.last(),
            ] + tc.subrange(cc.len() as int, tc.len() as int) && forall|k: int|
                0 <= k < segments(x).len() ==> #[trigger] segments(x)[k] != dotdot()
        }),
{
    let tm = target_model(t, cwd);
    let c = normalized(cwd);
    let tc = comps(tm.0, tm.1);
    let cc = comps(c.0, c.1);
    if file_name(c) is Some && file_name(parent_of(c)) is Some {
        let cn = c.1.last();
        let pn = c.1[c.1.len() - 2];
        assert(parent_of(c).1.last() == pn);
        if cc.len() <= tc.len() && tc.subrange(0, cc.len() as int) == cc {
            let rest = tc.subrange(cc.len() as int, tc.len() as int);
            lemma_normalized_clean(cwd);
            lemma_rest_below(absolutize_spec(t, cwd), c);
            let l = seq![pn, cn] + rest;
            assert forall|k: int| 0 <= k < l.len() implies clean_seg(#[trigger] l[k]) && l[k]
                != dotdot() by {
                if k > 1 {
                    assert(l[k] == rest[k - 2]);
                }
            }
            lemma_segments_of_join(l);
            if same_path(tm, c) {
                assert(tc == cc);
                assert(rest.len() == 0);
                assert(l =~= seq![pn, cn]);
            } else {
                assert(strip_spec(tm, c) == Some(rest));
            }
        } else {
            assert(!same_path(tm, c)) by {
                if same_path(tm, c) {
                    assert(tc.subrange(0, cc.len() as int) =~= cc);
                }
            }
        }
    }
}

/// The parent-anchored rendering of `target`, or `None` when the target is
/// outside `cwd` or `cwd` or its parent has no name.
pub fn parent_anchored_exec(target: &str, cwd: &str) -> (r: Option<String>)
    ensures
        match r {
            Some(s) => parent_anchored(target@, cwd@) == Some(s@),
            None => parent_anchored(target@, cwd@) is None,
        },
{
    let c = normalize_parts(&chars_of(cwd));
    let len = c.segments.len();
    if len == 0 || is_dotdot(&c.segments[len - 1]) {
        return None;
    }
    if len == 1 || is_dotdot(&c.segments[len - 2]) {
        assert(sv(c.segments@).drop_last().len() == 0 || sv(c.segments@).drop_last().last()
            == sv(c.segments@)[len - 2]);
        return None;
    }
    let cwd_name = c.segments[len - 1].clone();
    let parent_name = c.segments[len - 2].clone();
    let joined = absolutize(target, cwd);
    let n = normalize_parts(&chars_of(joined.as_str()));
    let mut lead: Vec<Vec<char>> = Vec::new();
    lead.push(parent_name);
    lead.push(cwd_name);
    assert(sv(c.segments@).drop_last().last() == sv(c.segments@)[len - 2]);
    assert(sv(lead@) =~= seq![sv(c.segments@)[len - 2], sv(c.segments@)[len - 1]]);
    anchored_under_exec(&n, &c, &lead)
}

/// Renderer for [`crate::anchor::Anchor::Parent`].
pub struct ParentRenderer;

impl AnchorRenderer for ParentRenderer {
    /// Always succeeds; the result is [`parent_anchored`] when that is
    /// defined, and the absolute form for some answer of the filesystem
    /// otherwise.
    fn render<F: FileSystem>(&self, target: &str, ctx: &RenderContext<'_, F>) -> (r: Result<
        String,
        YankError,
    >)
        ensures
            exists|ans: Answers|
                #[trigger] answers_fit(Anchor::Parent, target@, ctx.cwd@, ctx.git_root, ans)
                    && renders_by(Anchor::Parent, target@, ctx.cwd@, ctx.home, ctx.git_root, ans, r),
    {
        let (r, ans) = render_recorded(&Anchor::Parent, target, ctx);
        assert(answers_fit(Anchor::Parent, target@, ctx.cwd@, ctx.git_root, ans@));
        r
    }
}

} // verus!
