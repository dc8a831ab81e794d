//! Base anchor renderer: the name of the current directory leads.
//!
//! A file at `/home/u/proj/src/lib.rs` with cwd `/home/u/proj` becomes
//! `proj/src/lib.rs`. Targets outside the current directory, or a current
//! directory without a name (such as `/`), fall back to the absolute form.
use vstd::prelude::*;

use crate::anchor::{answers_fit, render_recorded, renders_by, Anchor, AnchorRenderer, Answers, RenderContext};
use crate::error::YankError;
use crate::fs::FileSystem;
use crate::path::{
    absolutize, absolutize_spec, comps, dotdot, file_name, is_dotdot, join_exec, join_segs,
    lemma_join_prepend, lemma_normalized_clean, lemma_rest_below, lemma_segments_of_join,
    normalize_parts, normalized, same_parts, same_path, segments, strip_parts, strip_spec, sv,
    PathParts,
};
use crate::path::clean_seg;
use crate::text::{chars_of, string_of};

verus! {

/// `lead` followed by the segments of `rest`, joined with `/`.
pub fn lead_then(lead: &Vec<Vec<char>>, rest: &Vec<Vec<char>>) -> (r: String)
    ensures
        r@ == join_segs(sv(lead@) + sv(rest@)),
{
    let mut all: Vec<Vec<char>> = Vec::new();
    let mut i: usize = 0;
    while i < lead.len()
        invariant
            i <= lead.len(),
            sv(all@) == sv(lead@).subrange(0, i as int),
        decreases lead.len() - i,
    {
        let ghost before = sv(all@);
        all.push(lead[i].clone());
        assert(sv(all@) =~= before.push(lead[i as int]@));
        assert(sv(lead@).subrange(0, i + 1) =~= sv(lead@).subrange(0, i as int).push(
            lead[i as int]@,
        ));
        i += 1;
    }
    let mut j: usize = 0;
    while j < rest.len()
        invariant
            j <= rest.len(),
            sv(all@) == sv(lead@) + sv(rest@).subrange(0, j as int),
        decreases rest.len() - j,
    {
        let ghost before = sv(all@);
        all.push(rest[j].clone());
        assert(sv(all@) =~= before.push(rest[j as int]@));
        assert(sv(rest@).subrange(0, j + 1) =~= sv(rest@).subrange(0, j as int).push(
            rest[j as int]@,
        ));
        j += 1;
        assert(sv(lead@) + sv(rest@).subrange(0, j as int) =~= (sv(lead@) + sv(rest@).subrange(
            0,
            j - 1,
        )).push(rest[j - 1]@));
    }
    assert(sv(lead@).subrange(0, lead.len() as int) =~= sv(lead@));
    assert(sv(rest@).subrange(0, rest.len() as int) =~= sv(rest@));
    let joined = join_exec(&all);
    string_of(joined.as_slice())
}

/// The target normalised after joining it to `cwd`.
pub open spec fn target_model(t: Seq<char>, cwd: Seq<char>) -> (bool, Seq<Seq<char>>) {
    normalized(absolutize_spec(t, cwd))
}

/// The rendering under `lead` of a target inside the directory `dir`:
/// `lead` alone when the target is `dir`, `lead/<rest>` when it lies below;
/// `None` when it lies outside.
pub open spec fn anchored_under(
    target: (bool, Seq<Seq<char>>),
    dir: (bool, Seq<Seq<char>>),
    lead: Seq<Seq<char>>,
) -> Option<Seq<char>> {
    if same_path(target, dir) {
        Some(join_segs(lead))
    } else {
        match strip_spec(target, dir) {
            Some(rest) => Some(join_segs(lead + rest)),
            None => None,
        }
    }
}

/// The base-anchored rendering of `t`, or `None` when the renderer falls
/// back to the absolute form.
pub open spec fn base_anchored(t: Seq<char>, cwd: Seq<char>) -> Option<Seq<char>> {
    match file_name(normalized(cwd)) {
        None => None,
        Some(b) => anchored_under(target_model(t, cwd), normalized(cwd), seq![b]),
    }
}

/// The rendering of the target `n` under `lead` when it lies in `dir`.
pub fn anchored_under_exec(n: &PathParts, dir: &PathParts, lead: &Vec<Vec<char>>) -> (r: Option<
    String,
>)
    ensures
        match r {
            Some(s) => anchored_under(n.model(), dir.model(), sv(lead@)) == Some(s@),
            None => anchored_under(n.model(), dir.model(), sv(lead@)) is None,
        },
{
    if same_parts(n, dir) {
        let empty: Vec<Vec<char>> = Vec::new();
        let s = lead_then(lead, &empty);
        assert(sv(lead@) + sv(empty@) =~= sv(lead@));
        return Some(s);
    }
    match strip_parts(n, dir) {
        Some(rest) => Some(lead_then(lead, &rest)),
        None => None,
    }
}

/// No base rendering is a bare file name: it is the current directory's
/// name, or that name, a separator and the path below it.
pub proof fn lemma_base_leads_with_cwd_name(t: Seq<char>, cwd: Seq<char>, x: Seq<char>)
    requires
        base_anchored(t, cwd) == Some(x),
    ensures
        file_name(normalized(cwd)) matches Some(b) && (x == b || (b.len() < x.len()
            && x.subrange(0, b.len() as int + 1) == b.push('/'))),
{
    let b = file_name(normalized(cwd)).unwrap();
    let tm = target_model(t, cwd);
    if !same_path(tm, normalized(cwd)) {
        let rest = strip_spec(tm, normalized(cwd)).unwrap();
        lemma_join_prepend(b, rest);
        if rest.len() > 0 {
            assert(x.subrange(0, b.len() as int + 1) =~= b.push('/'));
        }
    } else {
        lemma_join_prepend(b, Seq::empty());
        assert(seq![b] + Seq::<Seq<char>>::empty() =~= seq![b]);
    }
}

/// The base anchor renders only what lies at or below the working
/// directory: a rendering exists exactly when the directory has a name and
/// its components begin the target's; it is then the directory's name
/// followed by the target's remaining components, and none of its segments
/// is `..`. Every other target falls back to the absolute form.
pub proof fn lemma_base_renders_only_inside(t: Seq<char>, cwd: Seq<char>)
    ensures
        ({
            let tm = target_model(t, cwd);
            let c = normalized(cwd);
            let tc = comps(tm.0, tm.1);
            let cc = comps(c.0, c.1);
            &&& (base_anchored(t, cwd) is Some) == (file_name(c) is Some && cc.len() <= tc.len()
                && tc.subrange(0, cc.len() as int) == cc)
            &&& base_anchored(t, cwd) matches Some(x) ==> segments(x) == seq![c.1.last()]
                + tc.subrange(cc.len() as int, tc.len() as int) && forall|k: int|
                0 <= k < segments(x).len() ==> #[trigger] segments(x)[k] != dotdot()
        }),
{
    let tm = target_model(t, cwd);
    let c = normalized(cwd);
    let tc = comps(tm.0, tm.1);
    let cc = comps(c.0, c.1);
    if file_name(c) is Some && cc.len() <= tc.len() && tc.subrange(0, cc.len() as int) == cc {
        let b = c.1.last();
        let rest = tc.subrange(cc.len() as int, tc.len() as int);
        lemma_normalized_clean(cwd);
        lemma_rest_below(absolutize_spec(t, cwd), c);
        let l = seq![b] + rest;
        assert forall|k: int| 0 <= k < l.len() implies clean_seg(#[trigger] l[k]) && l[k] != dotdot() by {
            if k > 0 {
                assert(l[k] == rest[k - 1]);
            }
        }
        lemma_segments_of_join(l);
        if same_path(tm, c) {
            assert(tc == cc);
            assert(rest.len() == 0);
            assert(l =~= seq![b]);
        } else {
            assert(strip_spec(tm, c) == Some(rest));
        }
    } else if file_name(c) is Some {
        assert(!same_path(tm, c)) by {
            if same_path(tm, c) {
                assert(tc.subrange(0, cc.len() as int) =~= cc);
            }
        }
    }
}

/// The base-anchored rendering of `target`, or `None` when the target is
/// outside `cwd` or `cwd` has no name.
pub fn base_anchored_exec(target: &str, cwd: &str) -> (r: Option<String>)
    ensures
        match r {
            Some(s) => base_anchored(target@, cwd@) == Some(s@),
            None => base_anchored(target@, cwd@) is None,
        },
{
    let c = normalize_parts(&chars_of(cwd));
    if c.segments.len() == 0 || is_dotdot(&c.segments[c.segments.len() - 1]) {
        return None;
    }
    let b = c.segments[c.segments.len() - 1].clone();
    let joined = absolutize(target, cwd);
    let n = normalize_parts(&chars_of(joined.as_str()));
    let mut lead: Vec<Vec<char>> = Vec::new();
    lead.push(b);
    assert(sv(lead@) =~= seq![sv(c.segments@).last()]);
    anchored_under_exec(&n, &c, &lead)
}

/// Renderer for [`crate::anchor::Anchor::Base`].
pub struct BaseRenderer;

impl AnchorRenderer for BaseRenderer {
    /// Always succeeds; the result is [`base_anchored`] when that is
    /// defined, and the absolute form for some answer of the filesystem
    /// otherwise.
    fn render<F: FileSystem>(&self, target: &str, ctx: &RenderContext<'_, F>) -> (r: Result<
        String,
        YankError,
    >)
        ensures
            exists|ans: Answers|
                #[trigger] answers_fit(Anchor::Base, target@, ctx.cwd@, ctx.git_root, ans)
                    && renders_by(Anchor::Base, target@, ctx.cwd@, ctx.home, ctx.git_root, ans, r),
    {
        let (r, ans) = render_recorded(&Anchor::Base, target, ctx);
        assert(answers_fit(Anchor::Base, target@, ctx.cwd@, ctx.git_root, ans@));
        r
    }
}

} // verus!
