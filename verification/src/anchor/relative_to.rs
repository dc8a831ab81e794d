//! Relative-to anchor renderer: the target relative to a base directory.
//!
//! Walks up with `..` when the target is not below the base. Base and
//! target are both joined to `ctx.cwd` and normalised before comparison;
//! the disk is not consulted.
use vstd::prelude::*;

use crate::anchor::base::target_model;
use crate::anchor::git::{relative_below, relative_below_exec};
use crate::anchor::{place_bare, placed, AnchorRenderer, RenderContext};
use crate::error::YankError;
use crate::fs::{FileSystem, Probe};
use crate::path::{
    absolutize, absolutize_spec, clean_seg, common_prefix_len, comps, comps_exec, display,
    dotdot, is_absolute, join_chars, join_segs, join_spec, keeps, lemma_join_append,
    lemma_join_first, lemma_join_last, lemma_norm_segs_fixed, lemma_normalized_clean,
    lemma_scan_join, lemma_scan_root, lemma_scan_word, lemma_segments_join, lexical_absolute,
    norm_segs, normalize_parts, normalize_spec, normalized, same_path, scan, segments,
    strip_spec, sv,
};
use crate::text::{chars_of, string_of};

verus! {

/// Number of leading components that `a` and `b` share.
pub open spec fn common_len(a: Seq<Seq<char>>, b: Seq<Seq<char>>) -> nat
    decreases a.len(),
{
    if a.len() == 0 || b.len() == 0 || a[0] != b[0] {
        0
    } else {
        1 + common_len(a.drop_first(), b.drop_first())
    }
}

/// The pieces pushed one after another with `PathBuf::push` semantics,
/// starting from the empty path.
pub open spec fn push_all(parts: Seq<Seq<char>>) -> Seq<char>
    decreases parts.len(),
{
    if parts.len() == 0 {
        Seq::empty()
    } else {
        join_spec(push_all(parts.drop_last()), parts.last())
    }
}

/// The walk from `b` to `a`: one `..` per component of `b` beyond the
/// shared prefix, then the components of `a` beyond it.
pub open spec fn walk_parts(a: (bool, Seq<Seq<char>>), b: (bool, Seq<Seq<char>>)) -> Seq<
    Seq<char>,
> {
    let ac = comps(a.0, a.1);
    let bc = comps(b.0, b.1);
    let k = common_len(ac, bc);
    Seq::new((bc.len() - k) as nat, |i: int| dotdot()) + ac.subrange(k as int, ac.len() as int)
}

/// The normalised path `a` relative to the normalised path `b`.
pub open spec fn relative_model(a: (bool, Seq<Seq<char>>), b: (bool, Seq<Seq<char>>)) -> Seq<
    char,
> {
    match relative_below(a, b) {
        Some(x) => x,
        None => if push_all(walk_parts(a, b)).len() == 0 {
            seq!['.']
        } else {
            push_all(walk_parts(a, b))
        },
    }
}

/// `t` rendered relative to `base`, both taken against `cwd`.
pub open spec fn relative_to_spec(t: Seq<char>, cwd: Seq<char>, base: Seq<char>) -> Seq<char> {
    relative_model(target_model(t, cwd), target_model(base, cwd))
}

/// The shared-prefix length is the one position where the lists first
/// differ (or one ends).
pub proof fn lemma_common_len(a: Seq<Seq<char>>, b: Seq<Seq<char>>, k: int)
    requires
        0 <= k <= a.len(),
        k <= b.len(),
        a.subrange(0, k) == b.subrange(0, k),
        k < a.len() && k < b.len() ==> a[k] != b[k],
    ensures
        common_len(a, b) == k,
    decreases k,
{
    if k > 0 {
        assert(a[0] == a.subrange(0, k)[0]);
        assert(b[0] == b.subrange(0, k)[0]);
        assert(a.drop_first().subrange(0, k - 1) =~= a.subrange(0, k).drop_first());
        assert(b.drop_first().subrange(0, k - 1) =~= b.subrange(0, k).drop_first());
        if k < a.len() && k < b.len() {
            assert(a.drop_first()[k - 1] == a[k]);
            assert(b.drop_first()[k - 1] == b[k]);
        }
        lemma_common_len(a.drop_first(), b.drop_first(), k - 1);
    }
}

/// [`relative_to_spec`], computed.
pub fn relative_to_exec(target: &str, cwd: &str, base: &str) -> (r: String)
    ensures
        r@ == relative_to_spec(target@, cwd@, base@),
{
    let a = normalize_parts(&chars_of(absolutize(target, cwd).as_str()));
    let b = normalize_parts(&chars_of(absolutize(base, cwd).as_str()));
    match relative_below_exec(&a, &b) {
        Some(s) => {
            return s;
        },
        None => {},
    }
    let ac = comps_exec(&a);
    let bc = comps_exec(&b);
    let k = common_prefix_len(&ac, &bc);
    proof {
        lemma_common_len(sv(ac@), sv(bc@), k as int);
    }
    let ghost parts = walk_parts(a.model(), b.model());
    let up = bc.len() - k;
    assert(parts.len() == up + (ac.len() - k));
    let mut dd: Vec<char> = Vec::new();
    dd.push('.');
    dd.push('.');
    assert(dd@ =~= dotdot());
    let mut out: Vec<char> = Vec::new();
    let mut j: usize = 0;
    while j < up
        invariant
            j <= up,
            up == bc.len() - k,
            parts == walk_parts(a.model(), b.model()),
            parts.len() == up + (ac.len() - k),
            dd@ == dotdot(),
            sv(ac@) == comps(a.model().0, a.model().1),
            sv(bc@) == comps(b.model().0, b.model().1),
            k == common_len(sv(ac@), sv(bc@)),
            out@ == push_all(parts.subrange(0, j as int)),
        decreases up - j,
    {
        assert(parts.subrange(0, j + 1).drop_last() =~= parts.subrange(0, j as int));
        assert(parts[j as int] == dotdot());
        out = join_chars(&out, &dd);
        j += 1;
    }
    let mut i: usize = k;
    while i < ac.len()
        invariant
            k <= i <= ac.len(),
            up == bc.len() - k,
            parts == walk_parts(a.model(), b.model()),
            parts.len() == up + (ac.len() - k),
            sv(ac@) == comps(a.model().0, a.model().1),
            sv(bc@) == comps(b.model().0, b.model().1),
            k == common_len(sv(ac@), sv(bc@)),
            out@ == push_all(parts.subrange(0, up + (i - k))),
        decreases ac.len() - i,
    {
        let ghost idx = up + (i - k);
        assert(parts.subrange(0, idx + 1).drop_last() =~= parts.subrange(0, idx));
        assert(parts[idx] == sv(ac@)[i as int]);
        out = join_chars(&out, &ac[i]);
        i += 1;
    }
    assert(parts.subrange(0, parts.len() as int) =~= parts);
    if out.len() == 0 {
        let mut d: Vec<char> = Vec::new();
        d.push('.');
        assert(d@ =~= seq!['.']);
        string_of(d.as_slice())
    } else {
        string_of(out.as_slice())
    }
}

/// Renderer for [`crate::anchor::Anchor::RelativeTo`], rooted at `base`.
pub struct RelativeToRenderer {
    base: String,
}

impl RelativeToRenderer {
    /// The base directory, which may be relative to the cwd.
    pub closed spec fn base_dir(&self) -> Seq<char> {
        self.base@
    }

    /// Build a renderer rooted at `base`; a relative `base` is taken against
    /// `ctx.cwd` at render time.
    pub fn new(base: String) -> (r: Self)
        ensures
            r.base_dir() == base@,
    {
        RelativeToRenderer { base }
    }
}

/// Render `target` relative to `base` ([`relative_to_spec`]), both taken
/// against `ctx.cwd`, placing a bare name reported as a regular file under
/// the base's name ([`place_bare`]); returns the recorded `is_file`
/// question too.
pub fn relative_to_recorded<F: FileSystem>(base: &str, target: &str, ctx: &RenderContext<'_, F>) -> (res: (
    String,
    Ghost<Option<Probe>>,
))
    ensures
        placed(
            relative_to_spec(target@, ctx.cwd@, base@),
            target_model(base@, ctx.cwd@),
            target@,
            ctx.cwd@,
            res.1@,
            res.0@,
        ),
{
    let x = relative_to_exec(target, ctx.cwd.as_str(), base);
    let dir = normalize_parts(&chars_of(absolutize(base, ctx.cwd.as_str()).as_str()));
    place_bare(x, &dir, target, ctx.cwd.as_str(), ctx.fs)
}

impl AnchorRenderer for RelativeToRenderer {
    /// Always succeeds with [`relative_to_recorded`]: the relative
    /// rendering, with a bare name placed under the base's name when the
    /// filesystem reports the target as a regular file.
    fn render<F: FileSystem>(&self, target: &str, ctx: &RenderContext<'_, F>) -> (r: Result<
        String,
        YankError,
    >)
        ensures
            r matches Ok(s) && exists|q: Option<Probe>|
                #[trigger] placed(
                    relative_to_spec(target@, ctx.cwd@, self.base_dir()),
                    target_model(self.base_dir(), ctx.cwd@),
                    target@,
                    ctx.cwd@,
                    q,
                    s@,
                ),
    {
        let (s, q) = relative_to_recorded(self.base.as_str(), target, ctx);
        let r: Result<String, YankError> = Ok(s);
        proof {
            let x = r->Ok_0;
            assert(x == s);
            assert(placed(
                relative_to_spec(target@, ctx.cwd@, self.base_dir()),
                target_model(self.base_dir(), ctx.cwd@),
                target@,
                ctx.cwd@,
                q@,
                x@,
            ));
        }
        r
    }
}

// ---------------------------------------------------------------------------
// Walking back from the base
// ---------------------------------------------------------------------------

/// The shared-prefix length is within both lists, and the lists agree up to
/// it.
pub proof fn lemma_common_len_prefix(a: Seq<Seq<char>>, b: Seq<Seq<char>>)
    ensures
        common_len(a, b) <= a.len(),
        common_len(a, b) <= b.len(),
        a.subrange(0, common_len(a, b) as int) == b.subrange(0, common_len(a, b) as int),
    decreases a.len(),
{
    if a.len() == 0 || b.len() == 0 || a[0] != b[0] {
        assert(a.subrange(0, 0) =~= b.subrange(0, 0));
    } else {
        lemma_common_len_prefix(a.drop_first(), b.drop_first());
        let k = common_len(a, b) as int;
        assert(a.subrange(0, k) =~= seq![a[0]] + a.drop_first().subrange(0, k - 1));
        assert(b.subrange(0, k) =~= seq![b[0]] + b.drop_first().subrange(0, k - 1));
    }
}

/// Pushing pieces that are neither empty nor rooted joins them with
/// separators.
pub proof fn lemma_push_all_join(p: Seq<Seq<char>>)
    requires
        forall|k: int| 0 <= k < p.len() ==> clean_seg(#[trigger] p[k]),
    ensures
        push_all(p) == join_segs(p),
    decreases p.len(),
{
    if p.len() > 0 {
        let pd = p.drop_last();
        assert forall|k: int| 0 <= k < pd.len() implies clean_seg(#[trigger] pd[k]) by {
            assert(pd[k] == p[k]);
        }
        lemma_push_all_join(pd);
        assert(clean_seg(p[p.len() - 1]));
        assert(p.last()[0] != '/');
        if pd.len() > 0 {
            assert(clean_seg(p[p.len() - 2]));
            assert(pd.last() == p[p.len() - 2]);
            lemma_join_last(pd);
            assert(join_segs(pd).last() != '/');
        } else {
            assert(p =~= seq![p[0]]);
        }
    }
}

/// Walking up `m` times from a list without `..` drops its last `m`
/// segments.
pub proof fn lemma_norm_up(b: Seq<Seq<char>>, m: nat)
    requires
        m <= b.len(),
        forall|k: int| 0 <= k < b.len() ==> #[trigger] b[k] != dotdot(),
    ensures
        norm_segs(b + Seq::new(m, |i: int| dotdot()), true) == b.subrange(0, b.len() - m),
    decreases m,
{
    if m == 0 {
        assert(b + Seq::new(0, |i: int| dotdot()) =~= b);
        lemma_norm_segs_fixed(b, true);
        assert(b.subrange(0, b.len() as int) =~= b);
    } else {
        let s = b + Seq::new(m, |i: int| dotdot());
        let s1 = b + Seq::new((m - 1) as nat, |i: int| dotdot());
        assert(s.drop_last() =~= s1);
        assert(s.last() == dotdot());
        lemma_norm_up(b, (m - 1) as nat);
        let st = b.subrange(0, b.len() - m + 1);
        assert(st.last() == b[b.len() - m]);
        assert(st.drop_last() =~= b.subrange(0, b.len() - m));
    }
}

/// Appending segments other than `..` appends them to the normal form.
pub proof fn lemma_norm_append(x: Seq<Seq<char>>, y: Seq<Seq<char>>, abs: bool)
    requires
        forall|k: int| 0 <= k < y.len() ==> #[trigger] y[k] != dotdot(),
    ensures
        norm_segs(x + y, abs) == norm_segs(x, abs) + y,
    decreases y.len(),
{
    if y.len() == 0 {
        assert(x + y =~= x);
        assert(norm_segs(x, abs) + y =~= norm_segs(x, abs));
    } else {
        let yd = y.drop_last();
        assert forall|k: int| 0 <= k < yd.len() implies #[trigger] yd[k] != dotdot() by {
            assert(yd[k] == y[k]);
        }
        lemma_norm_append(x, yd, abs);
        assert((x + y).drop_last() =~= x + yd);
        assert((x + y).last() == y.last());
        assert(y.last() == y[y.len() - 1]);
        assert(norm_segs(x, abs) + y =~= (norm_segs(x, abs) + yd).push(y.last()));
    }
}

/// The root, the segments `b`, and then a relative path of clean segments
/// `p`, read back as `b` followed by `p`.
pub proof fn lemma_segments_rooted_join(b: Seq<Seq<char>>, p: Seq<Seq<char>>)
    requires
        forall|k: int| 0 <= k < b.len() ==> clean_seg(#[trigger] b[k]),
        forall|k: int| 0 <= k < p.len() ==> clean_seg(#[trigger] p[k]),
        p.len() > 0,
    ensures
        is_absolute(join_spec(display(true, b), join_segs(p))),
        segments(join_spec(display(true, b), join_segs(p))) == b + p,
{
    let root = seq!['/'];
    let base = display(true, b);
    lemma_scan_root();
    assert(clean_seg(p[0]));
    lemma_join_first(p);
    assert(!is_absolute(join_segs(p)));
    assert forall|k: int| 0 <= k < (b + p).len() implies clean_seg(#[trigger] (b + p)[k]) by {
        if k < b.len() {
            assert((b + p)[k] == b[k]);
        } else {
            assert((b + p)[k] == p[k - b.len()]);
        }
    }
    if b.len() == 0 {
        assert(base =~= root);
        assert(b + p =~= p);
        lemma_segments_join(root, p);
    } else {
        assert(clean_seg(b[b.len() - 1]));
        lemma_join_last(b);
        assert(base.last() != '/');
        lemma_join_append(b, p);
        assert(join_spec(base, join_segs(p)) =~= root + join_segs(b + p));
        lemma_segments_join(root, b + p);
    }
}

/// The root, the segments `b`, and then `.`, read back as `b`.
pub proof fn lemma_segments_rooted_dot(b: Seq<Seq<char>>)
    requires
        forall|k: int| 0 <= k < b.len() ==> clean_seg(#[trigger] b[k]),
    ensures
        is_absolute(join_spec(display(true, b), seq!['.'])),
        segments(join_spec(display(true, b), seq!['.'])) == b,
{
    let root = seq!['/'];
    let dot = seq!['.'];
    let base = display(true, b);
    lemma_scan_root();
    assert(!keeps(dot));
    if b.len() == 0 {
        assert(base =~= root);
        assert(join_spec(base, dot) =~= root + dot);
        lemma_scan_word(root, dot);
        assert(Seq::<char>::empty() + dot =~= dot);
    } else {
        assert(clean_seg(b[b.len() - 1]));
        lemma_join_last(b);
        lemma_scan_join(root, b);
        let q = (root + join_segs(b)).push('/');
        assert(q.drop_last() =~= root + join_segs(b));
        assert(b.last() == b[b.len() - 1]);
        assert(b.drop_last().push(b.last()) =~= b);
        assert(scan(q) == (b, Seq::<char>::empty()));
        lemma_scan_word(q, dot);
        assert(join_spec(base, dot) =~= q + dot);
        assert(Seq::<char>::empty() + dot =~= dot);
    }
}

/// Walking from the base along the rendered path leads to the target: with
/// an absolute working directory, the base's absolute form joined with the
/// relative rendering normalises to the target's absolute form.
pub proof fn lemma_relative_to_round_trip(t: Seq<char>, cwd: Seq<char>, base: Seq<char>)
    requires
        is_absolute(cwd),
    ensures
        normalize_spec(join_spec(lexical_absolute(base, cwd), relative_to_spec(t, cwd, base)))
            == lexical_absolute(t, cwd),
{
    let ta = absolutize_spec(t, cwd);
    let ba = absolutize_spec(base, cwd);
    assert(is_absolute(ta));
    assert(is_absolute(ba));
    let am = normalized(ta);
    let bm = normalized(ba);
    let a = am.1;
    let b = bm.1;
    lemma_normalized_clean(ta);
    lemma_normalized_clean(ba);
    let ca = comps(true, a);
    let cb = comps(true, b);
    let joined = join_spec(display(true, b), relative_to_spec(t, cwd, base));
    assert(lexical_absolute(base, cwd) == display(true, b));
    if same_path(am, bm) {
        assert(a =~= ca.drop_first());
        assert(b =~= cb.drop_first());
        lemma_segments_rooted_dot(b);
        lemma_norm_segs_fixed(b, true);
    } else if strip_spec(am, bm) is Some {
        let rest = strip_spec(am, bm).unwrap();
        assert(a =~= b + rest) by {
            assert(ca.subrange(0, cb.len() as int) == cb);
            assert forall|i: int| 0 <= i < b.len() implies a[i] == b[i] by {
                assert(ca[i + 1] == cb[i + 1]);
            }
            assert forall|i: int| 0 <= i < rest.len() implies a[b.len() + i] == rest[i] by {
                assert(rest[i] == ca[cb.len() + i]);
            }
        }
        if rest.len() == 0 {
            assert(a =~= b);
            assert(ca =~= cb);
        }
        assert forall|k: int| 0 <= k < rest.len() implies clean_seg(#[trigger] rest[k]) by {
            assert(rest[k] == a[b.len() + k]);
        }
        lemma_segments_rooted_join(b, rest);
        lemma_norm_segs_fixed(a, true);
    } else {
        lemma_common_len_prefix(ca, cb);
        let k = common_len(ca, cb) as int;
        assert(k >= 1) by {
            assert(ca[0] == cb[0]);
        }
        let j = k - 1;
        let m = (b.len() - j) as nat;
        let up = Seq::new(m, |i: int| dotdot());
        let down = a.subrange(j, a.len() as int);
        let p = walk_parts(am, bm);
        assert(ca.subrange(k, ca.len() as int) =~= down);
        assert(p =~= up + down);
        assert(a.subrange(0, j) =~= b.subrange(0, j)) by {
            assert forall|i: int| 0 <= i < j implies a[i] == b[i] by {
                assert(ca.subrange(0, k)[i + 1] == cb.subrange(0, k)[i + 1]);
            }
        }
        assert forall|q: int| 0 <= q < p.len() implies clean_seg(#[trigger] p[q]) by {
            if q < m {
                assert(p[q] == dotdot());
                assert(keeps(dotdot()));
            } else {
                assert(p[q] == a[j + (q - m)]);
            }
        }
        lemma_push_all_join(p);
        if p.len() == 0 {
            assert(a =~= b) by {
                assert(a.subrange(0, j) =~= a);
                assert(b.subrange(0, j) =~= b);
            }
            assert(ca =~= cb);
        }
        lemma_join_first(p);
        assert(relative_to_spec(t, cwd, base) == join_segs(p));
        lemma_segments_rooted_join(b, p);
        assert(segments(joined) == b + p);
        assert forall|q: int| 0 <= q < down.len() implies #[trigger] down[q] != dotdot() by {
            assert(down[q] == a[j + q]);
        }
        lemma_norm_append(b + up, down, true);
        assert(b + p =~= (b + up) + down);
        lemma_norm_up(b, m);
        assert(b.subrange(0, b.len() - m) + down =~= a);
    }
}

/// The shape of the relative-to rendering, with an absolute working
/// directory: it is `.` exactly when target and base are the same path; it
/// is never absolute; and it reads back as one `..` for each segment of the
/// base beyond the part it shares with the target, then the target's
/// segments beyond that part.
pub proof fn lemma_relative_to_shape(t: Seq<char>, cwd: Seq<char>, base: Seq<char>)
    requires
        is_absolute(cwd),
    ensures
        ({
            let a = normalized(absolutize_spec(t, cwd)).1;
            let b = normalized(absolutize_spec(base, cwd)).1;
            let j = common_len(comps(true, a), comps(true, b)) - 1;
            let r = relative_to_spec(t, cwd, base);
            &&& (r == seq!['.']) == (a == b)
            &&& !is_absolute(r)
            &&& 0 <= j <= a.len()
            &&& j <= b.len()
            &&& segments(r) == Seq::new((b.len() - j) as nat, |i: int| dotdot()) + a.subrange(
                j,
                a.len() as int,
            )
        }),
{
    let ta = absolutize_spec(t, cwd);
    let ba = absolutize_spec(base, cwd);
    assert(is_absolute(ta));
    assert(is_absolute(ba));
    let am = normalized(ta);
    let bm = normalized(ba);
    let a = am.1;
    let b = bm.1;
    lemma_normalized_clean(ta);
    lemma_normalized_clean(ba);
    let ca = comps(true, a);
    let cb = comps(true, b);
    let r = relative_to_spec(t, cwd, base);
    let empty_q = Seq::<char>::empty();
    assert(scan(empty_q) == (Seq::<Seq<char>>::empty(), Seq::<char>::empty()));
    let dot = seq!['.'];
    assert(dot.drop_last() =~= empty_q);
    assert(segments(dot) == Seq::<Seq<char>>::empty()) by {
        assert(!keeps(dot));
    }
    lemma_common_len_prefix(ca, cb);
    let k = common_len(ca, cb) as int;
    assert(k >= 1) by {
        assert(ca[0] == cb[0]);
    }
    let j = k - 1;
    if same_path(am, bm) {
        assert(a =~= ca.drop_first());
        assert(b =~= cb.drop_first());
        assert(ca =~= cb);
        assert(ca.subrange(0, ca.len() as int) =~= ca);
        lemma_common_len(ca, cb, ca.len() as int);
        assert(r == dot);
        assert(Seq::new((b.len() - j) as nat, |i: int| dotdot()) + a.subrange(j, a.len() as int)
            =~= Seq::<Seq<char>>::empty());
    } else if strip_spec(am, bm) is Some {
        let rest = strip_spec(am, bm).unwrap();
        assert(ca.subrange(0, cb.len() as int) == cb);
        assert(a =~= b + rest) by {
            assert forall|i: int| 0 <= i < b.len() implies a[i] == b[i] by {
                assert(ca[i + 1] == cb[i + 1]);
            }
            assert forall|i: int| 0 <= i < rest.len() implies a[b.len() + i] == rest[i] by {
                assert(rest[i] == ca[cb.len() + i]);
            }
        }
        if rest.len() == 0 {
            assert(a =~= b);
            assert(ca =~= cb);
        }
        assert(cb.subrange(0, cb.len() as int) =~= cb);
        lemma_common_len(ca, cb, cb.len() as int);
        assert(j == b.len());
        assert forall|q: int| 0 <= q < rest.len() implies clean_seg(#[trigger] rest[q]) by {
            assert(rest[q] == a[b.len() + q]);
        }
        assert(r == join_segs(rest));
        lemma_segments_join(empty_q, rest);
        assert(empty_q + join_segs(rest) =~= join_segs(rest));
        assert(clean_seg(rest[0]));
        lemma_join_first(rest);
        assert(Seq::new((b.len() - j) as nat, |i: int| dotdot()) + a.subrange(j, a.len() as int)
            =~= rest);
        assert(a != b) by {
            if a == b {
                assert(ca =~= cb);
            }
        }
    } else {
        let m = (b.len() - j) as nat;
        let up = Seq::new(m, |i: int| dotdot());
        let down = a.subrange(j, a.len() as int);
        let p = walk_parts(am, bm);
        assert(ca.subrange(k, ca.len() as int) =~= down);
        assert(p =~= up + down);
        assert forall|q: int| 0 <= q < p.len() implies clean_seg(#[trigger] p[q]) by {
            if q < m {
                assert(p[q] == dotdot());
                assert(keeps(dotdot()));
            } else {
                assert(p[q] == a[j + (q - m)]);
            }
        }
        lemma_push_all_join(p);
        assert(a.subrange(0, j) =~= b.subrange(0, j)) by {
            assert forall|i: int| 0 <= i < j implies a[i] == b[i] by {
                assert(ca.subrange(0, k)[i + 1] == cb.subrange(0, k)[i + 1]);
            }
        }
        if p.len() == 0 {
            assert(a =~= b) by {
                assert(a.subrange(0, j) =~= a);
                assert(b.subrange(0, j) =~= b);
            }
            assert(ca =~= cb);
        }
        lemma_join_first(p);
        assert(r == join_segs(p));
        lemma_segments_join(empty_q, p);
        assert(empty_q + join_segs(p) =~= join_segs(p));
        assert(a != b) by {
            if a == b {
                assert(ca =~= cb);
            }
        }
    }
}

} // verus!
