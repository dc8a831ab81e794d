//! Lexical model of Unix paths.
//!
//! A path string is read as an optional root followed by the pieces between
//! `/` separators. Empty pieces (doubled or trailing separators) and `.`
//! pieces carry no meaning and are dropped, which is what
//! `std::path::Path::components` does for every `.` but a leading one; a
//! leading `.` only matters before normalisation, and every use below
//! normalises first.
//!
//! The component list used for equality and prefix tests encodes the root as
//! the one-character sequence `/` and the current directory as `.`; no
//! segment can take either value, so the encoding is faithful.
use vstd::prelude::*;

use crate::text::{chars_eq, chars_of, extend_chars, string_of};

verus! {

// ---------------------------------------------------------------------------
// Specification
// ---------------------------------------------------------------------------

/// The parent-directory segment `..`.
pub open spec fn dotdot() -> Seq<char> {
    seq!['.', '.']
}

/// Whether a piece between separators is a meaningful segment.
pub open spec fn keeps(seg: Seq<char>) -> bool {
    seg.len() > 0 && seg != seq!['.']
}

/// Adds the finished piece `cur` to `segs` when it is meaningful.
pub open spec fn close(segs: Seq<Seq<char>>, cur: Seq<char>) -> Seq<Seq<char>> {
    if keeps(cur) {
        segs.push(cur)
    } else {
        segs
    }
}

/// Left-to-right reading of `s`: the segments finished so far and the piece
/// being read.
pub open spec fn scan(s: Seq<char>) -> (Seq<Seq<char>>, Seq<char>)
    decreases s.len(),
{
    if s.len() == 0 {
        (Seq::empty(), Seq::empty())
    } else {
        let prev = scan(s.drop_last());
        if s.last() == '/' {
            (close(prev.0, prev.1), Seq::empty())
        } else {
            (prev.0, prev.1.push(s.last()))
        }
    }
}

/// The meaningful segments of a path string, in order.
pub open spec fn segments(s: Seq<char>) -> Seq<Seq<char>> {
    close(scan(s).0, scan(s).1)
}

/// A path is absolute when it starts with the root `/`.
pub open spec fn is_absolute(s: Seq<char>) -> bool {
    s.len() > 0 && s[0] == '/'
}

/// Lexical collapse of `..`: a `..` cancels a preceding ordinary segment;
/// directly on the root it disappears; otherwise (relative path) it stays.
pub open spec fn norm_segs(segs: Seq<Seq<char>>, abs: bool) -> Seq<Seq<char>>
    decreases segs.len(),
{
    if segs.len() == 0 {
        Seq::empty()
    } else {
        let st = norm_segs(segs.drop_last(), abs);
        let c = segs.last();
        if c == dotdot() {
            if st.len() > 0 && st.last() != dotdot() {
                st.drop_last()
            } else if abs {
                st
            } else {
                st.push(c)
            }
        } else {
            st.push(c)
        }
    }
}

/// Segments joined with `/`.
pub open spec fn join_segs(segs: Seq<Seq<char>>) -> Seq<char>
    decreases segs.len(),
{
    if segs.len() == 0 {
        Seq::empty()
    } else if segs.len() == 1 {
        segs[0]
    } else {
        join_segs(segs.drop_last()) + seq!['/'] + segs.last()
    }
}

/// The string form of a normalised path: the root, or `.` for an empty
/// relative path, followed by the joined segments.
pub open spec fn display(abs: bool, segs: Seq<Seq<char>>) -> Seq<char> {
    if abs {
        seq!['/'] + join_segs(segs)
    } else if segs.len() == 0 {
        seq!['.']
    } else {
        join_segs(segs)
    }
}

/// The normalised form of `s`: whether it is absolute, and its segments
/// after lexical collapse of `..`.
pub open spec fn normalized(s: Seq<char>) -> (bool, Seq<Seq<char>>) {
    (is_absolute(s), norm_segs(segments(s), is_absolute(s)))
}

/// The string that lexical normalisation of `s` produces.
pub open spec fn normalize_spec(s: Seq<char>) -> Seq<char> {
    display(normalized(s).0, normalized(s).1)
}

/// `base` joined with `t` as `PathBuf::push` does it on Unix: an absolute
/// `t` replaces `base`; otherwise a separator is inserted unless `base` is
/// empty or already ends with one.
pub open spec fn join_spec(base: Seq<char>, t: Seq<char>) -> Seq<char> {
    if is_absolute(t) {
        t
    } else if base.len() == 0 {
        t
    } else if base.last() == '/' {
        base + t
    } else {
        base + seq!['/'] + t
    }
}

/// `t` made absolute against `cwd` (no disk access).
pub open spec fn absolutize_spec(t: Seq<char>, cwd: Seq<char>) -> Seq<char> {
    if is_absolute(t) {
        t
    } else {
        join_spec(cwd, t)
    }
}

/// The lexical absolute form of `t` against `cwd`.
pub open spec fn lexical_absolute(t: Seq<char>, cwd: Seq<char>) -> Seq<char> {
    normalize_spec(absolutize_spec(t, cwd))
}

/// Component list of a normalised path: the root (as `/`), then the
/// segments; an empty relative path is the single current-directory
/// component `.`.
pub open spec fn comps(abs: bool, segs: Seq<Seq<char>>) -> Seq<Seq<char>> {
    if abs {
        seq![seq!['/']] + segs
    } else if segs.len() == 0 {
        seq![seq!['.']]
    } else {
        segs
    }
}

/// Component-wise prefix removal (`Path::strip_prefix`): the components of
/// `t` that follow those of `b`, when `b`'s components begin `t`'s.
pub open spec fn strip_spec(t: (bool, Seq<Seq<char>>), b: (bool, Seq<Seq<char>>)) -> Option<
    Seq<Seq<char>>,
> {
    let tc = comps(t.0, t.1);
    let bc = comps(b.0, b.1);
    if bc.len() <= tc.len() && tc.subrange(0, bc.len() as int) == bc {
        Some(tc.subrange(bc.len() as int, tc.len() as int))
    } else {
        None
    }
}

/// Whether two normalised paths are the same path.
pub open spec fn same_path(a: (bool, Seq<Seq<char>>), b: (bool, Seq<Seq<char>>)) -> bool {
    comps(a.0, a.1) == comps(b.0, b.1)
}

/// The last segment of a normalised path, unless it is `..` or absent.
pub open spec fn file_name(p: (bool, Seq<Seq<char>>)) -> Option<Seq<char>> {
    if p.1.len() > 0 && p.1.last() != dotdot() {
        Some(p.1.last())
    } else {
        None
    }
}

/// The path with its last segment removed.
pub open spec fn parent_of(p: (bool, Seq<Seq<char>>)) -> (bool, Seq<Seq<char>>) {
    (p.0, p.1.drop_last())
}

/// No segment of a normalised path is empty, `.`, or holds a separator.
pub open spec fn clean_seg(seg: Seq<char>) -> bool {
    keeps(seg) && forall|i: int| 0 <= i < seg.len() ==> seg[i] != '/'
}

// ---------------------------------------------------------------------------
// Lemmas
// ---------------------------------------------------------------------------

/// Every segment that reading produces is clean.
pub proof fn lemma_scan_clean(s: Seq<char>)
    ensures
        forall|k: int| 0 <= k < scan(s).0.len() ==> clean_seg(#[trigger] scan(s).0[k]),
        forall|i: int| 0 <= i < scan(s).1.len() ==> scan(s).1[i] != '/',
    decreases s.len(),
{
    if s.len() > 0 {
        lemma_scan_clean(s.drop_last());
        let prev = scan(s.drop_last());
        if s.last() == '/' {
            assert forall|k: int| 0 <= k < scan(s).0.len() implies clean_seg(
                #[trigger] scan(s).0[k],
            ) by {
                if k < prev.0.len() {
                    assert(scan(s).0[k] == prev.0[k]);
                } else {
                    assert(scan(s).0[k] == prev.1);
                }
            }
        } else {
            assert forall|i: int| 0 <= i < scan(s).1.len() implies scan(s).1[i] != '/' by {
                if i < prev.1.len() {
                    assert(scan(s).1[i] == prev.1[i]);
                }
            }
        }
    }
}

/// Every segment of a path is clean.
pub proof fn lemma_segments_clean(s: Seq<char>)
    ensures
        forall|k: int| 0 <= k < segments(s).len() ==> clean_seg(#[trigger] segments(s)[k]),
{
    lemma_scan_clean(s);
    let st = scan(s);
    assert forall|k: int| 0 <= k < segments(s).len() implies clean_seg(
        #[trigger] segments(s)[k],
    ) by {
        if k < st.0.len() {
            assert(segments(s)[k] == st.0[k]);
        } else {
            assert(segments(s)[k] == st.1);
        }
    }
}

/// Normalisation keeps only segments of its input.
pub proof fn lemma_norm_segs_from(segs: Seq<Seq<char>>, abs: bool)
    ensures
        forall|k: int|
            0 <= k < norm_segs(segs, abs).len() ==> segs.contains(
                #[trigger] norm_segs(segs, abs)[k],
            ),
    decreases segs.len(),
{
    if segs.len() > 0 {
        lemma_norm_segs_from(segs.drop_last(), abs);
        let st = norm_segs(segs.drop_last(), abs);
        assert forall|k: int| 0 <= k < norm_segs(segs, abs).len() implies segs.contains(
            #[trigger] norm_segs(segs, abs)[k],
        ) by {
            if k < st.len() {
                let j = choose|j: int| 0 <= j < segs.drop_last().len() && segs.drop_last()[j] == st[k];
                assert(segs[j] == st[k]);
            } else {
                assert(segs[segs.len() - 1] == segs.last());
            }
        }
    }
}

/// In a normalised absolute path no `..` remains, and in a relative one
/// every `..` comes before every ordinary segment.
pub proof fn lemma_norm_segs_shape(segs: Seq<Seq<char>>, abs: bool)
    ensures
        abs ==> forall|k: int|
            0 <= k < norm_segs(segs, abs).len() ==> #[trigger] norm_segs(segs, abs)[k] != dotdot(),
        forall|i: int, j: int|
            0 <= i < j < norm_segs(segs, abs).len() && #[trigger] norm_segs(segs, abs)[j]
                == dotdot() ==> #[trigger] norm_segs(segs, abs)[i] == dotdot(),
    decreases segs.len(),
{
    if segs.len() > 0 {
        lemma_norm_segs_shape(segs.drop_last(), abs);
        let st = norm_segs(segs.drop_last(), abs);
        let r = norm_segs(segs, abs);
        let c = segs.last();
        if c == dotdot() && st.len() > 0 && st.last() != dotdot() {
            assert forall|k: int| 0 <= k < r.len() implies r[k] == st[k] by {}
        } else if c == dotdot() && abs {
        } else {
            assert(r == st.push(c));
            assert forall|k: int| 0 <= k < st.len() implies r[k] == st[k] by {}
            if c == dotdot() {
                // relative, and either nothing or a `..` precedes: all earlier are `..`
                assert forall|i: int| 0 <= i < st.len() implies #[trigger] st[i] == dotdot() by {
                    assert(st[st.len() - 1] == dotdot());
                    if i < st.len() - 1 {
                        assert(st[i] == dotdot());
                    }
                }
            }
            assert forall|i: int, j: int|
                0 <= i < j < r.len() && #[trigger] r[j] == dotdot() implies #[trigger] r[i]
                == dotdot() by {
                if j < st.len() {
                    assert(r[j] == st[j]);
                    assert(r[i] == st[i]);
                } else {
                    assert(r[i] == st[i]);
                }
            }
        }
    }
}

/// Reading a run of non-separators extends the current piece.
pub proof fn lemma_scan_word(p: Seq<char>, w: Seq<char>)
    requires
        forall|i: int| 0 <= i < w.len() ==> w[i] != '/',
    ensures
        scan(p + w) == (scan(p).0, scan(p).1 + w),
    decreases w.len(),
{
    if w.len() == 0 {
        assert(p + w =~= p);
        assert(scan(p).1 + w =~= scan(p).1);
    } else {
        lemma_scan_word(p, w.drop_last());
        assert((p + w).drop_last() =~= p + w.drop_last());
        assert((p + w).last() == w.last());
        assert(scan(p).1 + w.drop_last() + seq![w.last()] =~= scan(p).1 + w);
        assert((scan(p).1 + w.drop_last()).push(w.last()) =~= scan(p).1 + w);
    }
}

/// Reading a joined list of clean segments after a prefix that leaves
/// nothing pending gives back the list.
pub proof fn lemma_scan_join(q: Seq<char>, ns: Seq<Seq<char>>)
    requires
        scan(q) == (Seq::<Seq<char>>::empty(), Seq::<char>::empty()),
        ns.len() > 0,
        forall|k: int| 0 <= k < ns.len() ==> clean_seg(#[trigger] ns[k]),
    ensures
        scan(q + join_segs(ns)) == (ns.drop_last(), ns.last()),
    decreases ns.len(),
{
    if ns.len() == 1 {
        lemma_scan_word(q, ns[0]);
        assert(Seq::<char>::empty() + ns[0] =~= ns[0]);
        assert(ns.drop_last() =~= Seq::<Seq<char>>::empty());
    } else {
        let nd = ns.drop_last();
        assert forall|k: int| 0 <= k < nd.len() implies clean_seg(#[trigger] nd[k]) by {
            assert(nd[k] == ns[k]);
        }
        lemma_scan_join(q, nd);
        let pre = (q + join_segs(nd)).push('/');
        assert(pre.drop_last() =~= q + join_segs(nd));
        assert(scan(pre) == (close(nd.drop_last(), nd.last()), Seq::<char>::empty()));
        assert(clean_seg(nd.last()));
        assert(nd.drop_last().push(nd.last()) =~= nd);
        assert(clean_seg(ns.last()));
        lemma_scan_word(pre, ns.last());
        assert(q + join_segs(ns) =~= pre + ns.last());
        assert(Seq::<char>::empty() + ns.last() =~= ns.last());
    }
}

/// Reading `p + q`, where `p` leaves nothing pending, reads `q` after the
/// segments finished in `p`.
pub proof fn lemma_scan_after(p: Seq<char>, q: Seq<char>)
    requires
        scan(p).1 == Seq::<char>::empty(),
    ensures
        scan(p + q) == (scan(p).0 + scan(q).0, scan(q).1),
    decreases q.len(),
{
    if q.len() == 0 {
        assert(p + q =~= p);
        assert(scan(p).0 + Seq::<Seq<char>>::empty() =~= scan(p).0);
    } else {
        lemma_scan_after(p, q.drop_last());
        assert((p + q).drop_last() =~= p + q.drop_last());
        assert((p + q).last() == q.last());
        let a = scan(q.drop_last());
        if q.last() == '/' && keeps(a.1) {
            assert((scan(p).0 + a.0).push(a.1) =~= scan(p).0 + a.0.push(a.1));
        }
    }
}

/// The segments of `p/q` are those of `p` followed by those of `q`.
pub proof fn lemma_segments_split(p: Seq<char>, q: Seq<char>)
    ensures
        segments(p + seq!['/'] + q) == segments(p) + segments(q),
{
    let pre = p.push('/');
    assert(pre.drop_last() =~= p);
    assert(pre.last() == '/');
    assert(scan(pre) == (segments(p), Seq::<char>::empty()));
    lemma_scan_after(pre, q);
    assert(p + seq!['/'] + q =~= pre + q);
    let sq = scan(q);
    if keeps(sq.1) {
        assert((segments(p) + sq.0).push(sq.1) =~= segments(p) + sq.0.push(sq.1));
    }
}

/// What lies below a directory: when the components of the normalised
/// path `d` begin those of the normalised `s`, the components that follow
/// are clean segments and none is `..` (unless `d` is a relative path
/// ending in `..`, whose components can be followed by more `..`); and when
/// `d` is relative without segments, nothing follows.
pub proof fn lemma_rest_below(s: Seq<char>, d: (bool, Seq<Seq<char>>))
    requires
        forall|k: int| 0 <= k < d.1.len() ==> clean_seg(#[trigger] d.1[k]),
        comps(d.0, d.1).len() <= comps(normalized(s).0, normalized(s).1).len(),
        comps(normalized(s).0, normalized(s).1).subrange(0, comps(d.0, d.1).len() as int) == comps(
            d.0,
            d.1,
        ),
    ensures
        ({
            let tc = comps(normalized(s).0, normalized(s).1);
            let rest = tc.subrange(comps(d.0, d.1).len() as int, tc.len() as int);
            &&& forall|k: int| 0 <= k < rest.len() ==> clean_seg(#[trigger] rest[k])
            &&& (d.0 || d.1.len() == 0 || d.1.last() != dotdot()) ==> forall|k: int|
                0 <= k < rest.len() ==> #[trigger] rest[k] != dotdot()
            &&& (!d.0 && d.1.len() == 0) ==> rest.len() == 0
        }),
{
    let n = normalized(s);
    let tc = comps(n.0, n.1);
    let dc = comps(d.0, d.1);
    let rest = tc.subrange(dc.len() as int, tc.len() as int);
    lemma_normalized_clean(s);
    lemma_normalize_idempotent(s);
    assert(tc[0] == dc[0]);
    if n.0 {
        assert forall|k: int| 0 <= k < rest.len() implies clean_seg(#[trigger] rest[k]) && rest[k]
            != dotdot() by {
            assert(rest[k] == tc[dc.len() + k]);
            assert(dc.len() >= 1);
            assert(tc[dc.len() + k] == n.1[dc.len() + k - 1]);
        }
        if !d.0 && d.1.len() == 0 {
            assert(dc[0] == seq!['.']);
            assert(tc[0] == seq!['/']);
            assert(seq!['.'][0] != seq!['/'][0]);
        }
    } else if n.1.len() == 0 {
        // tc is `.`: only `.` begins it.
        assert(tc == seq![seq!['.']]);
        if d.0 {
            assert(seq!['.'][0] != seq!['/'][0]);
        } else if d.1.len() > 0 {
            assert(clean_seg(d.1[0]));
            assert(d.1[0] == seq!['.']);
        }
        assert(dc.len() == 1);
        assert(rest.len() == 0);
    } else {
        assert(tc == n.1);
        assert(clean_seg(n.1[0]));
        if d.0 {
            assert(dc[0] == seq!['/']);
            assert(n.1[0] == seq!['/']);
            assert(n.1[0][0] == '/');
        }
        if d.1.len() == 0 {
            assert(dc[0] == seq!['.']);
            assert(n.1[0] == seq!['.']);
        }
        assert(dc == d.1);
        assert forall|k: int| 0 <= k < rest.len() implies clean_seg(#[trigger] rest[k]) by {
            assert(rest[k] == n.1[d.1.len() + k]);
        }
        if d.1.last() != dotdot() {
            assert forall|k: int| 0 <= k < rest.len() implies #[trigger] rest[k] != dotdot() by {
                assert(rest[k] == n.1[d.1.len() + k]);
                assert(n.1[d.1.len() - 1] == d.1.last());
                if rest[k] == dotdot() {
                    assert(n.1[d.1.len() - 1] == dotdot());
                }
            }
        }
    }
}

/// A list of clean segments is read back from its join.
pub proof fn lemma_segments_of_join(ns: Seq<Seq<char>>)
    requires
        forall|k: int| 0 <= k < ns.len() ==> clean_seg(#[trigger] ns[k]),
    ensures
        segments(join_segs(ns)) == ns,
{
    let e = Seq::<char>::empty();
    assert(scan(e) == (Seq::<Seq<char>>::empty(), Seq::<char>::empty()));
    lemma_segments_join(e, ns);
    assert(e + join_segs(ns) =~= join_segs(ns));
}

/// The segments of a joined list of clean segments, after `""` or `"/"`,
/// are that list.
pub proof fn lemma_segments_join(q: Seq<char>, ns: Seq<Seq<char>>)
    requires
        scan(q) == (Seq::<Seq<char>>::empty(), Seq::<char>::empty()),
        forall|k: int| 0 <= k < ns.len() ==> clean_seg(#[trigger] ns[k]),
    ensures
        segments(q + join_segs(ns)) == ns,
{
    if ns.len() == 0 {
        assert(q + join_segs(ns) =~= q);
    } else {
        lemma_scan_join(q, ns);
        assert(clean_seg(ns.last()));
        assert(ns.drop_last().push(ns.last()) =~= ns);
    }
}

/// A list already in normal form is left unchanged by normalisation.
pub proof fn lemma_norm_segs_fixed(ns: Seq<Seq<char>>, abs: bool)
    requires
        abs ==> forall|k: int| 0 <= k < ns.len() ==> #[trigger] ns[k] != dotdot(),
        forall|i: int, j: int|
            0 <= i < j < ns.len() && #[trigger] ns[j] == dotdot() ==> #[trigger] ns[i] == dotdot(),
    ensures
        norm_segs(ns, abs) == ns,
    decreases ns.len(),
{
    if ns.len() > 0 {
        let nd = ns.drop_last();
        assert forall|i: int, j: int|
            0 <= i < j < nd.len() && #[trigger] nd[j] == dotdot() implies #[trigger] nd[i]
            == dotdot() by {
            assert(nd[j] == ns[j]);
            assert(nd[i] == ns[i]);
        }
        assert forall|k: int| abs && 0 <= k < nd.len() implies #[trigger] nd[k] != dotdot() by {
            assert(nd[k] == ns[k]);
        }
        lemma_norm_segs_fixed(nd, abs);
        if ns.last() == dotdot() && nd.len() > 0 {
            assert(ns[nd.len() - 1] == dotdot());
            assert(nd.last() == ns[nd.len() - 1]);
        }
        assert(nd.push(ns.last()) =~= ns);
    }
}

/// Normalisation is idempotent: a normalised path normalises to itself.
/// The normal form is never empty, keeps whether the path is absolute, and
/// reads back as its segments: none empty or `.`, no `..` in an absolute
/// path, and in a relative one every `..` before every other segment.
pub proof fn lemma_normalize_idempotent(s: Seq<char>)
    ensures
        normalize_spec(normalize_spec(s)) == normalize_spec(s),
        normalize_spec(s).len() > 0,
        is_absolute(normalize_spec(s)) == is_absolute(s),
        segments(normalize_spec(s)) == normalized(s).1,
        forall|k: int|
            0 <= k < normalized(s).1.len() ==> #[trigger] normalized(s).1[k] != seq!['.']
                && normalized(s).1[k].len() > 0,
        is_absolute(s) ==> forall|k: int|
            0 <= k < normalized(s).1.len() ==> #[trigger] normalized(s).1[k] != dotdot(),
        forall|i: int, j: int|
            0 <= i < j < normalized(s).1.len() && #[trigger] normalized(s).1[j] == dotdot()
                ==> #[trigger] normalized(s).1[i] == dotdot(),
{
    let abs = is_absolute(s);
    let ns = norm_segs(segments(s), abs);
    let d = normalize_spec(s);
    lemma_segments_clean(s);
    lemma_norm_segs_from(segments(s), abs);
    lemma_norm_segs_shape(segments(s), abs);
    assert forall|k: int| 0 <= k < ns.len() implies clean_seg(#[trigger] ns[k]) by {
        let j = choose|j: int| 0 <= j < segments(s).len() && segments(s)[j] == ns[k];
        assert(clean_seg(segments(s)[j]));
    }
    assert forall|k: int| 0 <= k < ns.len() implies #[trigger] ns[k] != seq!['.'] && ns[k].len()
        > 0 by {
        assert(clean_seg(ns[k]));
    }
    let empty_q = Seq::<char>::empty();
    assert(scan(empty_q) == (Seq::<Seq<char>>::empty(), Seq::<char>::empty()));
    if abs {
        let root = seq!['/'];
        assert(root.drop_last() =~= empty_q);
        assert(scan(root) == (Seq::<Seq<char>>::empty(), Seq::<char>::empty()));
        lemma_segments_join(root, ns);
        assert(d == root + join_segs(ns));
        assert(is_absolute(d));
    } else if ns.len() == 0 {
        assert(d == seq!['.']);
        let dot = seq!['.'];
        assert(dot.drop_last() =~= empty_q);
        assert(segments(dot) == Seq::<Seq<char>>::empty());
        assert(!is_absolute(d));
    } else {
        lemma_segments_join(empty_q, ns);
        assert(empty_q + join_segs(ns) =~= join_segs(ns));
        assert(d == join_segs(ns));
        lemma_scan_join(empty_q, ns);
        lemma_join_first(ns);
        assert(clean_seg(ns[0]));
        assert(ns[0][0] != '/');
        assert(!is_absolute(d));
    }
    assert(normalized(d).0 == abs);
    assert(segments(d) == ns);
    lemma_norm_segs_fixed(ns, abs);
}

/// A non-empty join begins with the first segment.
pub proof fn lemma_join_first(ns: Seq<Seq<char>>)
    requires
        ns.len() > 0,
        ns[0].len() > 0,
    ensures
        join_segs(ns).len() > 0,
        join_segs(ns)[0] == ns[0][0],
    decreases ns.len(),
{
    if ns.len() > 1 {
        lemma_join_first(ns.drop_last());
    }
}

/// A segment put in front of a list joins as that segment, a separator and
/// the join of the rest (or the segment alone).
pub proof fn lemma_join_prepend(b: Seq<char>, rest: Seq<Seq<char>>)
    ensures
        join_segs(seq![b] + rest) == if rest.len() == 0 {
            b
        } else {
            b + seq!['/'] + join_segs(rest)
        },
    decreases rest.len(),
{
    let s = seq![b] + rest;
    if rest.len() == 0 {
        assert(s =~= seq![b]);
    } else if rest.len() == 1 {
        assert(s.drop_last() =~= seq![b]);
        assert(s.last() == rest[0]);
        assert(join_segs(s) == join_segs(s.drop_last()) + seq!['/'] + s.last());
        assert(join_segs(rest) == rest[0]);
    } else {
        assert(s.drop_last() =~= seq![b] + rest.drop_last());
        assert(s.last() == rest.last());
        lemma_join_prepend(b, rest.drop_last());
        assert(join_segs(s) == join_segs(s.drop_last()) + seq!['/'] + s.last());
        assert(join_segs(rest) == join_segs(rest.drop_last()) + seq!['/'] + rest.last());
        assert(join_segs(s) =~= b + seq!['/'] + join_segs(rest));
    }
}

/// Every segment of a normalised path is clean, and an absolute one holds
/// no `..`.
pub proof fn lemma_normalized_clean(s: Seq<char>)
    ensures
        forall|k: int|
            0 <= k < normalized(s).1.len() ==> clean_seg(#[trigger] normalized(s).1[k]),
        normalized(s).0 ==> forall|k: int|
            0 <= k < normalized(s).1.len() ==> #[trigger] normalized(s).1[k] != dotdot(),
{
    let abs = is_absolute(s);
    let ns = norm_segs(segments(s), abs);
    lemma_segments_clean(s);
    lemma_norm_segs_from(segments(s), abs);
    lemma_norm_segs_shape(segments(s), abs);
    assert forall|k: int| 0 <= k < ns.len() implies clean_seg(#[trigger] ns[k]) by {
        let j = choose|j: int| 0 <= j < segments(s).len() && segments(s)[j] == ns[k];
        assert(clean_seg(segments(s)[j]));
    }
}

/// The join of two non-empty lists is their joins around a separator.
pub proof fn lemma_join_append(x: Seq<Seq<char>>, y: Seq<Seq<char>>)
    requires
        x.len() > 0,
        y.len() > 0,
    ensures
        join_segs(x + y) == join_segs(x) + seq!['/'] + join_segs(y),
    decreases y.len(),
{
    let s = x + y;
    assert(s.last() == y.last());
    if y.len() == 1 {
        assert(s.drop_last() =~= x);
    } else {
        assert(s.drop_last() =~= x + y.drop_last());
        lemma_join_append(x, y.drop_last());
        assert(join_segs(s) =~= join_segs(x) + seq!['/'] + join_segs(y));
    }
}

/// A join of segments ends as its last segment ends.
pub proof fn lemma_join_last(ns: Seq<Seq<char>>)
    requires
        ns.len() > 0,
        ns.last().len() > 0,
    ensures
        join_segs(ns).len() > 0,
        join_segs(ns).last() == ns.last().last(),
{
    if ns.len() == 1 {
        assert(ns.last() == ns[0]);
    }
}

/// Reading the root alone leaves nothing.
pub proof fn lemma_scan_root()
    ensures
        scan(seq!['/']) == (Seq::<Seq<char>>::empty(), Seq::<char>::empty()),
{
    let root = seq!['/'];
    let empty_q = Seq::<char>::empty();
    assert(scan(empty_q) == (Seq::<Seq<char>>::empty(), Seq::<char>::empty()));
    assert(root.drop_last() =~= empty_q);
    assert(root.last() == '/');
    assert(!keeps(empty_q));
}

// ---------------------------------------------------------------------------
// Executable model
// ---------------------------------------------------------------------------

/// The character sequences held by a vector of character vectors.
pub open spec fn sv(v: Seq<Vec<char>>) -> Seq<Seq<char>> {
    v.map_values(|x: Vec<char>| x@)
}

/// A path split into its root flag and segments.
pub struct PathParts {
    pub absolute: bool,
    pub segments: Vec<Vec<char>>,
}

impl PathParts {
    /// The root flag and the segments as character sequences.
    pub open spec fn model(&self) -> (bool, Seq<Seq<char>>) {
        (self.absolute, sv(self.segments@))
    }
}

/// Whether `seg` is the segment `..`.
pub fn is_dotdot(seg: &Vec<char>) -> (r: bool)
    ensures
        r == (seg@ == dotdot()),
{
    let r = seg.len() == 2 && seg[0] == '.' && seg[1] == '.';
    proof {
        if r {
            assert(seg@ =~= dotdot());
        }
    }
    r
}

fn keeps_exec(seg: &Vec<char>) -> (r: bool)
    ensures
        r == keeps(seg@),
{
    let r = seg.len() > 0 && !(seg.len() == 1 && seg[0] == '.');
    proof {
        if seg.len() == 1 && seg[0] == '.' {
            assert(seg@ =~= seq!['.']);
        }
    }
    r
}

/// The meaningful segments of `s`.
pub fn segments_of(s: &Vec<char>) -> (r: Vec<Vec<char>>)
    ensures
        sv(r@) == segments(s@),
{
    let mut segs: Vec<Vec<char>> = Vec::new();
    let mut cur: Vec<char> = Vec::new();
    let mut i: usize = 0;
    while i < s.len()
        invariant
            i <= s.len(),
            sv(segs@) == scan(s@.subrange(0, i as int)).0,
            cur@ == scan(s@.subrange(0, i as int)).1,
        decreases s.len() - i,
    {
        let ghost pre = s@.subrange(0, i as int);
        assert(s@.subrange(0, i + 1).drop_last() =~= pre);
        assert(s@.subrange(0, i + 1).last() == s@[i as int]);
        if s[i] == '/' {
            if keeps_exec(&cur) {
                let ghost old_segs = sv(segs@);
                segs.push(cur);
                assert(sv(segs@) =~= old_segs.push(scan(pre).1));
            }
            cur = Vec::new();
            assert(cur@ =~= Seq::<char>::empty());
        } else {
            cur.push(s[i]);
        }
        i += 1;
    }
    assert(s@.subrange(0, s.len() as int) =~= s@);
    if keeps_exec(&cur) {
        let ghost old_segs = sv(segs@);
        let ghost c = cur@;
        segs.push(cur);
        assert(sv(segs@) =~= old_segs.push(c));
    }
    segs
}

/// The normalised form of `s`, split into parts.
pub fn normalize_parts(s: &Vec<char>) -> (r: PathParts)
    ensures
        r.model() == normalized(s@),
{
    let abs = s.len() > 0 && s[0] == '/';
    let segs = segments_of(s);
    let mut st: Vec<Vec<char>> = Vec::new();
    let mut i: usize = 0;
    while i < segs.len()
        invariant
            i <= segs.len(),
            abs == is_absolute(s@),
            sv(segs@) == segments(s@),
            sv(st@) == norm_segs(sv(segs@).subrange(0, i as int), abs),
        decreases segs.len() - i,
    {
        let ghost segv = sv(segs@);
        let ghost pre = segv.subrange(0, i as int);
        assert(segv.subrange(0, i + 1).drop_last() =~= pre);
        assert(segv.subrange(0, i + 1).last() == segv[i as int]);
        assert(segv[i as int] == segs[i as int]@);
        let ghost old_st = sv(st@);
        if is_dotdot(&segs[i]) {
            let pop = st.len() > 0 && !is_dotdot(&st[st.len() - 1]);
            if pop {
                assert(old_st.last() == st[st.len() - 1]@);
                st.pop();
                assert(sv(st@) =~= old_st.drop_last());
            } else if !abs {
                st.push(segs[i].clone());
                assert(sv(st@) =~= old_st.push(segv[i as int]));
            }
        } else {
            st.push(segs[i].clone());
            assert(sv(st@) =~= old_st.push(segv[i as int]));
        }
        i += 1;
    }
    assert(sv(segs@).subrange(0, segs.len() as int) =~= sv(segs@));
    PathParts { absolute: abs, segments: st }
}

/// Segments joined with `/`.
pub fn join_exec(segs: &Vec<Vec<char>>) -> (r: Vec<char>)
    ensures
        r@ == join_segs(sv(segs@)),
{
    let mut out: Vec<char> = Vec::new();
    let mut i: usize = 0;
    while i < segs.len()
        invariant
            i <= segs.len(),
            out@ == join_segs(sv(segs@).subrange(0, i as int)),
        decreases segs.len() - i,
    {
        let ghost segv = sv(segs@);
        assert(segv.subrange(0, i + 1).drop_last() =~= segv.subrange(0, i as int));
        assert(segv.subrange(0, i + 1).last() == segs[i as int]@);
        if i == 0 {
            out = segs[0].clone();
            assert(segv.subrange(0, 1)[0] == segs[0]@);
        } else {
            out.push('/');
            extend_chars(&mut out, &segs[i]);
        }
        i += 1;
    }
    assert(sv(segs@).subrange(0, segs.len() as int) =~= sv(segs@));
    out
}

/// The string form of a normalised path.
pub fn display_exec(p: &PathParts) -> (r: Vec<char>)
    ensures
        r@ == display(p.model().0, p.model().1),
{
    let j = join_exec(&p.segments);
    if p.absolute {
        let mut out: Vec<char> = Vec::new();
        out.push('/');
        extend_chars(&mut out, &j);
        assert(out@ =~= seq!['/'] + j@);
        out
    } else if p.segments.len() == 0 {
        let mut out: Vec<char> = Vec::new();
        out.push('.');
        assert(out@ =~= seq!['.']);
        out
    } else {
        j
    }
}

/// `base` joined with `t`, as `PathBuf::push` does it.
pub fn join_chars(base: &Vec<char>, t: &Vec<char>) -> (r: Vec<char>)
    ensures
        r@ == join_spec(base@, t@),
{
    if t.len() > 0 && t[0] == '/' {
        t.clone()
    } else if base.len() == 0 {
        t.clone()
    } else if base[base.len() - 1] == '/' {
        let mut out = base.clone();
        extend_chars(&mut out, t);
        out
    } else {
        let mut out = base.clone();
        out.push('/');
        extend_chars(&mut out, t);
        out
    }
}

/// Make `target` absolute by joining it to `cwd` when it is relative.
///
/// Does not touch the disk, and does not normalise.
pub fn absolutize(target: &str, cwd: &str) -> (r: String)
    ensures
        r@ == absolutize_spec(target@, cwd@),
{
    let t = chars_of(target);
    let c = chars_of(cwd);
    let j = join_chars(&c, &t);
    string_of(j.as_slice())
}

/// Collapse `.` and `..` segments lexically, without consulting the disk.
///
/// `.` disappears; `..` removes the preceding ordinary segment, disappears
/// directly on the root, and is kept otherwise. An empty relative result is
/// `.`.
pub fn normalize_components(path: &str) -> (r: String)
    ensures
        r@ == normalize_spec(path@),
{
    let p = chars_of(path);
    let parts = normalize_parts(&p);
    let d = display_exec(&parts);
    string_of(d.as_slice())
}

/// The component list of a normalised path (root as `/`, an empty relative
/// path as `.`).
pub fn comps_exec(p: &PathParts) -> (r: Vec<Vec<char>>)
    ensures
        sv(r@) == comps(p.model().0, p.model().1),
{
    let mut out: Vec<Vec<char>> = Vec::new();
    if p.absolute {
        let mut root: Vec<char> = Vec::new();
        root.push('/');
        out.push(root);
    } else if p.segments.len() == 0 {
        let mut cur: Vec<char> = Vec::new();
        cur.push('.');
        out.push(cur);
    }
    let ghost head = sv(out@);
    assert(p.absolute ==> head =~= seq![seq!['/']]);
    assert(!p.absolute && p.segments.len() == 0 ==> head =~= seq![seq!['.']]);
    let mut i: usize = 0;
    while i < p.segments.len()
        invariant
            i <= p.segments.len(),
            sv(out@) == head + sv(p.segments@).subrange(0, i as int),
        decreases p.segments.len() - i,
    {
        let ghost before = sv(out@);
        out.push(p.segments[i].clone());
        assert(sv(out@) =~= before.push(p.segments[i as int]@));
        assert(sv(p.segments@).subrange(0, i + 1) =~= sv(p.segments@).subrange(
            0,
            i as int,
        ).push(p.segments[i as int]@));
        i += 1;
    }
    assert(sv(p.segments@).subrange(0, p.segments.len() as int)
        =~= sv(p.segments@));
    assert(sv(out@) =~= comps(p.model().0, p.model().1));
    out
}

/// Whether two segment lists are equal.
pub fn segs_eq(a: &Vec<Vec<char>>, b: &Vec<Vec<char>>) -> (r: bool)
    ensures
        r == (sv(a@) == sv(b@)),
{
    if a.len() != b.len() {
        return false;
    }
    let mut i: usize = 0;
    while i < a.len()
        invariant
            a.len() == b.len(),
            i <= a.len(),
            forall|j: int| 0 <= j < i ==> sv(a@)[j] == sv(b@)[j],
        decreases a.len() - i,
    {
        if !chars_eq(a[i].as_slice(), b[i].as_slice()) {
            assert(sv(a@)[i as int] != sv(b@)[i as int]);
            return false;
        }
        i += 1;
    }
    assert(sv(a@) =~= sv(b@));
    true
}

/// Number of leading components of `b` that begin `t` as well, and whether
/// all of `b` does.
pub fn common_prefix_len(t: &Vec<Vec<char>>, b: &Vec<Vec<char>>) -> (r: usize)
    ensures
        r <= t.len(),
        r <= b.len(),
        sv(t@).subrange(0, r as int) == sv(b@).subrange(0, r as int),
        r < t.len() && r < b.len() ==> sv(t@)[r as int] != sv(b@)[r as int],
{
    let mut i: usize = 0;
    while i < t.len() && i < b.len() && chars_eq(t[i].as_slice(), b[i].as_slice())
        invariant
            i <= t.len(),
            i <= b.len(),
            sv(t@).subrange(0, i as int) == sv(b@).subrange(0, i as int),
        decreases t.len() - i,
    {
        assert(sv(t@).subrange(0, i + 1) =~= sv(t@).subrange(0, i as int).push(
            t[i as int]@,
        ));
        assert(sv(b@).subrange(0, i + 1) =~= sv(b@).subrange(0, i as int).push(
            b[i as int]@,
        ));
        i += 1;
    }
    i
}

/// The components of `t` after those of `b`, when `b`'s components begin
/// `t`'s (`Path::strip_prefix`).
pub fn strip_parts(t: &PathParts, b: &PathParts) -> (r: Option<Vec<Vec<char>>>)
    ensures
        match r {
            Some(rest) => strip_spec(t.model(), b.model()) == Some(sv(rest@)),
            None => strip_spec(t.model(), b.model()) is None,
        },
{
    let tc = comps_exec(t);
    let bc = comps_exec(b);
    let k = common_prefix_len(&tc, &bc);
    if k == bc.len() {
        let mut rest: Vec<Vec<char>> = Vec::new();
        let mut i: usize = k;
        while i < tc.len()
            invariant
                k <= i <= tc.len(),
                sv(rest@) == sv(tc@).subrange(k as int, i as int),
            decreases tc.len() - i,
        {
            let ghost before = sv(rest@);
            rest.push(tc[i].clone());
            assert(sv(rest@) =~= before.push(tc[i as int]@));
            assert(sv(tc@).subrange(k as int, i + 1) =~= sv(tc@).subrange(
                k as int,
                i as int,
            ).push(sv(tc@)[i as int]));
            i += 1;
        }
        assert(sv(bc@).subrange(0, k as int) =~= sv(bc@));
        Some(rest)
    } else {
        proof {
            let tcv = sv(tc@);
            let bcv = sv(bc@);
            if bcv.len() <= tcv.len() && tcv.subrange(0, bcv.len() as int) == bcv {
                assert(tcv.subrange(0, bcv.len() as int)[k as int] == tcv[k as int]);
            }
        }
        None
    }
}

/// Whether two normalised paths have the same components.
pub fn same_parts(a: &PathParts, b: &PathParts) -> (r: bool)
    ensures
        r == same_path(a.model(), b.model()),
{
    let ac = comps_exec(a);
    let bc = comps_exec(b);
    segs_eq(&ac, &bc)
}

} // verus!
