//! Home anchor renderer: the home directory collapsed to `~`.
use vstd::prelude::*;

use crate::anchor::{answers_fit, render_recorded, renders_by, Anchor, AnchorRenderer, Answers, RenderContext};
use crate::error::YankError;
use crate::fs::FileSystem;
use crate::path::{dotdot, is_absolute, lemma_normalize_idempotent, lemma_segments_split, normalize_spec, segments};
use crate::text::{chars_eq, chars_of, extend_chars, string_of};

verus! {

/// The absolute string `a` with the home directory `h` collapsed: `~` when
/// `a` is `h`, `~/<rest>` when `a` starts with `h/`, `a` otherwise.
pub open spec fn home_form(a: Seq<char>, h: Seq<char>) -> Seq<char> {
    if a == h {
        seq!['~']
    } else if h.len() + 1 <= a.len() && a.subrange(0, h.len() + 1 as int) == h.push('/') {
        seq!['~', '/'] + a.subrange(h.len() + 1 as int, a.len() as int)
    } else {
        a
    }
}

/// [`home_form`] when a home directory is known; `a` unchanged otherwise.
pub open spec fn home_opt(a: Seq<char>, home: Option<String>) -> Seq<char> {
    match home {
        Some(h) => home_form(a, h@),
        None => a,
    }
}

/// The home form never climbs out of the home directory: an absolute path
/// is shown with `~` exactly when it is the home directory or lies below
/// it; any other path is left as it is.
pub proof fn lemma_tilde_iff_inside_home(a: Seq<char>, h: Seq<char>)
    requires
        a.len() > 0,
        a[0] == '/',
    ensures
        (home_form(a, h)[0] == '~') <==> (a == h || (h.len() + 1 <= a.len() && a.subrange(
            0,
            h.len() + 1 as int,
        ) == h.push('/'))),
        !(a == h || (h.len() + 1 <= a.len() && a.subrange(0, h.len() + 1 as int) == h.push('/')))
            ==> home_form(a, h) == a,
{
}

/// `home` never climbs out of the home directory: for an absolute form in
/// normal form (as every lexical absolute form is), a `~/...` rendering has
/// no `..` segment.
pub proof fn lemma_home_form_never_climbs(a: Seq<char>, h: Seq<char>)
    requires
        is_absolute(a),
        normalize_spec(a) == a,
    ensures
        ({
            let s = home_form(a, h);
            s.len() >= 2 && s[0] == '~' && s[1] == '/' ==> forall|k: int|
                0 <= k < segments(s.subrange(2, s.len() as int)).len() ==> #[trigger] segments(
                    s.subrange(2, s.len() as int),
                )[k] != dotdot()
        }),
{
    let s = home_form(a, h);
    if s.len() >= 2 && s[0] == '~' && s[1] == '/' {
        assert(a != h);
        assert(h.len() + 1 <= a.len() && a.subrange(0, h.len() + 1 as int) == h.push('/'));
        let rest = a.subrange(h.len() + 1 as int, a.len() as int);
        let head = a.subrange(0, h.len() as int);
        assert(s.subrange(2, s.len() as int) =~= rest);
        assert(a[h.len() as int] == h.push('/')[h.len() as int]);
        assert(a =~= head + seq!['/'] + rest);
        lemma_segments_split(head, rest);
        lemma_normalize_idempotent(a);
        assert forall|k: int| 0 <= k < segments(rest).len() implies #[trigger] segments(rest)[k]
            != dotdot() by {
            assert(segments(a)[segments(head).len() + k] == segments(rest)[k]);
        }
    }
}

/// Collapse the home directory in an absolute path string.
pub fn collapse_home(abs: &str, home: &Option<String>) -> (r: String)
    ensures
        r@ == home_opt(abs@, *home),
{
    let h = match home {
        Some(h) => h,
        None => {
            return abs.to_owned();
        },
    };
    let a = chars_of(abs);
    let hv = chars_of(h.as_str());
    if chars_eq(a.as_slice(), hv.as_slice()) {
        let mut t: Vec<char> = Vec::new();
        t.push('~');
        assert(t@ =~= seq!['~']);
        return string_of(t.as_slice());
    }
    let mut with_slash = hv.clone();
    with_slash.push('/');
    let n = with_slash.len();
    if n <= a.len() {
        let mut head: Vec<char> = Vec::new();
        let mut i: usize = 0;
        while i < n
            invariant
                n == with_slash.len(),
                n <= a.len(),
                i <= n,
                head@ == a@.subrange(0, i as int),
            decreases n - i,
        {
            head.push(a[i]);
            i += 1;
        }
        if chars_eq(head.as_slice(), with_slash.as_slice()) {
            let mut out: Vec<char> = Vec::new();
            out.push('~');
            out.push('/');
            let mut j: usize = n;
            let ghost start = out@;
            while j < a.len()
                invariant
                    n <= j <= a.len(),
                    start == seq!['~', '/'],
                    out@ == start + a@.subrange(n as int, j as int),
                decreases a.len() - j,
            {
                out.push(a[j]);
                j += 1;
                assert(out@ =~= start + a@.subrange(n as int, j as int));
            }
            assert(start =~= seq!['~', '/']);
            return string_of(out.as_slice());
        }
    }
    abs.to_owned()
}

/// Renderer for [`crate::anchor::Anchor::Home`].
pub struct HomeRenderer;

impl AnchorRenderer for HomeRenderer {
    /// Always succeeds with the home form of the absolute form for some
    /// answer of the filesystem ([`crate::anchor::render_recorded`]).
    fn render<F: FileSystem>(&self, target: &str, ctx: &RenderContext<'_, F>) -> (r: Result<
        String,
        YankError,
    >)
        ensures
            exists|ans: Answers|
                #[trigger] answers_fit(Anchor::Home, target@, ctx.cwd@, ctx.git_root, ans)
                    && renders_by(Anchor::Home, target@, ctx.cwd@, ctx.home, ctx.git_root, ans, r),
    {
        let (r, ans) = render_recorded(&Anchor::Home, target, ctx);
        assert(answers_fit(Anchor::Home, target@, ctx.cwd@, ctx.git_root, ans@));
        r
    }
}

} // verus!
