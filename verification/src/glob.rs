//! Single-level, files-only glob expansion.
//!
//! Patterns are matched in the current working directory only; recursive
//! (`**`) and multi-segment (`/`) patterns are rejected with distinct
//! errors. The aggregate is sorted and not deduplicated; an empty aggregate
//! is an error.
use vstd::prelude::*;

use crate::error::YankError;
use crate::fs::{ask_cwd, CwdAnswer, probe_file, FileSystem, Probe};
use crate::text::{chars_of, copy_strings};

verus! {

// ---------------------------------------------------------------------------
// Pattern checks
// ---------------------------------------------------------------------------

/// Whether `s` contains `**`.
pub open spec fn has_double_star(s: Seq<char>) -> bool {
    exists|i: int| 0 <= i && i + 1 < s.len() && #[trigger] s[i] == '*' && s[i + 1] == '*'
}

/// Whether `s` contains `/`.
pub open spec fn has_slash(s: Seq<char>) -> bool {
    exists|i: int| 0 <= i < s.len() && #[trigger] s[i] == '/'
}

/// A pattern that neither recursive nor multi-segment.
pub open spec fn is_plain(s: Seq<char>) -> bool {
    !has_double_star(s) && !has_slash(s)
}

/// Every pattern of the list is plain.
pub open spec fn all_plain(ps: Seq<String>) -> bool {
    forall|i: int| 0 <= i < ps.len() ==> is_plain(#[trigger] ps[i]@)
}

/// Check one pattern: `**` is rejected first, then `/`.
pub fn check_pattern(pattern: &String) -> (r: Result<(), YankError>)
    ensures
        has_double_star(pattern@) ==> (r matches Err(YankError::RecursiveGlobRejected(p))
            && p@ == pattern@),
        !has_double_star(pattern@) && has_slash(pattern@) ==> (r matches Err(
            YankError::GlobHasSlash(p),
        ) && p@ == pattern@),
        is_plain(pattern@) ==> r is Ok,
{
    let s = chars_of(pattern.as_str());
    let mut i: usize = 0;
    while s.len() > 0 && i < s.len() - 1
        invariant
            s@ == pattern@,
            i <= s.len(),
            forall|j: int| 0 <= j < i && j + 1 < s.len() ==> !(#[trigger] s@[j] == '*' && s@[j + 1] == '*'),
        decreases s.len() - i,
    {
        if s[i] == '*' && s[i + 1] == '*' {
            return Err(YankError::RecursiveGlobRejected(pattern.clone()));
        }
        i += 1;
    }
    let mut k: usize = 0;
    while k < s.len()
        invariant
            s@ == pattern@,
            k <= s.len(),
            !has_double_star(pattern@),
            forall|j: int| 0 <= j < k ==> s@[j] != '/',
        decreases s.len() - k,
    {
        if s[k] == '/' {
            return Err(YankError::GlobHasSlash(pattern.clone()));
        }
        k += 1;
    }
    Ok(())
}

// ---------------------------------------------------------------------------
// Ordering
// ---------------------------------------------------------------------------

/// Lexicographic order on character sequences (by code point).
pub open spec fn lex_le(a: Seq<char>, b: Seq<char>) -> bool
    decreases a.len(),
{
    if a.len() == 0 {
        true
    } else if b.len() == 0 {
        false
    } else if a[0] != b[0] {
        a[0] < b[0]
    } else {
        lex_le(a.drop_first(), b.drop_first())
    }
}

/// Whether a list of strings is in lexicographic order.
pub open spec fn sorted(s: Seq<String>) -> bool {
    forall|i: int, j: int| 0 <= i < j < s.len() ==> lex_le(#[trigger] s[i]@, #[trigger] s[j]@)
}

/// Any two sequences are ordered one way or the other.
pub proof fn lemma_lex_total(a: Seq<char>, b: Seq<char>)
    ensures
        lex_le(a, b) || lex_le(b, a),
    decreases a.len(),
{
    if a.len() > 0 && b.len() > 0 && a[0] == b[0] {
        lemma_lex_total(a.drop_first(), b.drop_first());
    }
}

/// The order is transitive.
pub proof fn lemma_lex_trans(a: Seq<char>, b: Seq<char>, c: Seq<char>)
    requires
        lex_le(a, b),
        lex_le(b, c),
    ensures
        lex_le(a, c),
    decreases a.len(),
{
    if a.len() > 0 && b.len() > 0 && c.len() > 0 && a[0] == b[0] && b[0] == c[0] {
        lemma_lex_trans(a.drop_first(), b.drop_first(), c.drop_first());
    }
}

/// Whether `a` comes before or equals `b` lexicographically.
pub fn lex_le_exec(a: &String, b: &String) -> (r: bool)
    ensures
        r == lex_le(a@, b@),
{
    let x = chars_of(a.as_str());
    let y = chars_of(b.as_str());
    let mut i: usize = 0;
    assert(x@.subrange(0, x.len() as int) =~= x@);
    assert(y@.subrange(0, y.len() as int) =~= y@);
    while i < x.len() && i < y.len() && x[i] == y[i]
        invariant
            i <= x.len(),
            i <= y.len(),
            x@.subrange(0, i as int) == y@.subrange(0, i as int),
            lex_le(x@, y@) == lex_le(x@.subrange(i as int, x.len() as int), y@.subrange(
                i as int,
                y.len() as int,
            )),
        decreases x.len() - i,
    {
        assert(x@.subrange(i as int, x.len() as int).drop_first() =~= x@.subrange(
            i + 1,
            x.len() as int,
        ));
        assert(y@.subrange(i as int, y.len() as int).drop_first() =~= y@.subrange(
            i + 1,
            y.len() as int,
        ));
        assert(x@.subrange(0, i + 1) =~= x@.subrange(0, i as int).push(x@[i as int]));
        assert(y@.subrange(0, i + 1) =~= y@.subrange(0, i as int).push(y@[i as int]));
        i += 1;
    }
    let ghost xs = x@.subrange(i as int, x.len() as int);
    let ghost ys = y@.subrange(i as int, y.len() as int);
    proof {
        assert(x@.subrange(0, 0) =~= y@.subrange(0, 0));
    }
    if i == x.len() {
        true
    } else if i == y.len() {
        false
    } else {
        assert(xs[0] == x@[i as int]);
        assert(ys[0] == y@[i as int]);
        x[i] < y[i]
    }
}

/// The strings of `v` in lexicographic order; the same strings, duplicates
/// kept.
pub fn sort_paths(v: Vec<String>) -> (r: Vec<String>)
    ensures
        r@.to_multiset() == v@.to_multiset(),
        sorted(r@),
{
    broadcast use vstd::seq_lib::to_multiset_build, vstd::seq_lib::to_multiset_insert;

    let mut out: Vec<String> = Vec::new();
    let mut i: usize = 0;
    assert(v@.subrange(0, 0) =~= Seq::<String>::empty());
    assert(out@ =~= Seq::<String>::empty());
    while i < v.len()
        invariant
            i <= v.len(),
            out@.to_multiset() == v@.subrange(0, i as int).to_multiset(),
            sorted(out@),
        decreases v.len() - i,
    {
        let x = v[i].clone();
        let mut j: usize = 0;
        while j < out.len() && lex_le_exec(&out[j], &x)
            invariant
                j <= out.len(),
                forall|k: int| 0 <= k < j ==> lex_le(#[trigger] out@[k]@, x@),
            decreases out.len() - j,
        {
            j += 1;
        }
        let ghost before = out@;
        proof {
            if j < out.len() {
                lemma_lex_total(x@, out@[j as int]@);
            }
            assert forall|k: int| j <= k < before.len() implies lex_le(x@, #[trigger] before[k]@) by {
                if k > j {
                    lemma_lex_trans(x@, before[j as int]@, before[k]@);
                }
            }
        }
        let ghost xv = x;
        out.insert(j, x);
        proof {
            vstd::seq_lib::to_multiset_insert(before, j as int, xv);
            vstd::seq_lib::to_multiset_build(v@.subrange(0, i as int), v@[i as int]);
            assert(out@.to_multiset() == before.insert(j as int, xv).to_multiset());
            assert(v@.subrange(0, i + 1) =~= v@.subrange(0, i as int).push(v@[i as int]));
            assert(v@.subrange(0, i as int).push(v@[i as int]).to_multiset()
                == v@.subrange(0, i as int).to_multiset().insert(v@[i as int]));
            assert forall|a: int, b: int| 0 <= a < b < out@.len() implies lex_le(
                #[trigger] out@[a]@,
                #[trigger] out@[b]@,
            ) by {
                if a < j && b == j {
                } else if a < j && b > j {
                    assert(out@[b] == before[b - 1]);
                    lemma_lex_trans(out@[a]@, x@, before[b - 1]@);
                } else if a == j {
                    assert(out@[b] == before[b - 1]);
                } else if b < j {
                } else {
                    assert(out@[a] == before[a - 1]);
                    assert(out@[b] == before[b - 1]);
                }
            }
        }
        i += 1;
    }
    assert(v@.subrange(0, v.len() as int) =~= v@);
    out
}

// ---------------------------------------------------------------------------
// Expansion
// ---------------------------------------------------------------------------

/// The syntax error that the `glob` crate reports for a pattern, if any
/// (the text of its `PatternError`).
pub uninterp spec fn glob_pattern_error(pattern: Seq<char>) -> Option<Seq<char>>;

/// Every path that the `glob` crate yields for `pattern`, in its order; an
/// entry it could not read, or whose path is not valid UTF-8 (which no
/// `String` holds), is `None`.
///
/// Trusted: calls `glob::glob`. That function fails exactly when the pattern
/// (or one of its `/`-separated pieces) does not parse, which depends on
/// the pattern alone; the error's text is named by [`glob_pattern_error`].
/// Which paths are yielded depends on the disk and is not stated.
#[verifier::external_body]
fn glob_entries(pattern: &str) -> (r: Result<Vec<Option<String>>, String>)
    ensures
        match r {
            Ok(_) => glob_pattern_error(pattern@) is None,
            Err(m) => glob_pattern_error(pattern@) == Some(m@),
        },
{
    match glob::glob(pattern) {
        Ok(paths) => Ok(
            paths.map(|e| e.ok().and_then(|p| p.into_os_string().into_string().ok())).collect(),
        ),
        Err(e) => Err(e.to_string()),
    }
}

/// The pattern as matched: anchored at the working directory.
pub open spec fn anchored_spec(cwd: Seq<char>, pattern: Seq<char>) -> Seq<char> {
    cwd + "/"@ + pattern
}

/// The message for a pattern the `glob` crate rejects.
pub open spec fn invalid_pattern_message(pattern: Seq<char>, err: Seq<char>) -> Seq<char> {
    "invalid glob pattern '"@ + pattern + "': "@ + err
}

/// The usage error for a pattern the `glob` crate rejects with `err`.
pub fn invalid_pattern_error(pattern: &String, err: &String) -> (r: YankError)
    ensures
        r matches YankError::InvalidUsage(m) && m@ == invalid_pattern_message(pattern@, err@),
{
    let mut m = String::from_str("invalid glob pattern '");
    m.append(pattern.as_str());
    m.append("': ");
    m.append(err.as_str());
    YankError::InvalidUsage(m)
}

/// The entries that are kept: those read without error and answered as
/// regular files, in order.
pub open spec fn kept_spec(entries: Seq<Option<String>>, is_file: Seq<bool>) -> Seq<String>
    decreases entries.len(),
{
    if entries.len() == 0 || is_file.len() == 0 {
        Seq::empty()
    } else {
        let rest = kept_spec(entries.drop_last(), is_file.drop_last());
        match entries.last() {
            Some(p) => if is_file.last() {
                rest.push(p)
            } else {
                rest
            },
            None => rest,
        }
    }
}

/// The entries of one expansion that are kept, given for each entry whether
/// the filesystem reported it as a regular file (the answer for an entry
/// that could not be read is ignored).
pub fn keep_files(entries: &Vec<Option<String>>, is_file: &Vec<bool>) -> (r: Vec<String>)
    requires
        entries.len() == is_file.len(),
    ensures
        r@ == kept_spec(entries@, is_file@),
{
    let mut out: Vec<String> = Vec::new();
    let mut k: usize = 0;
    while k < entries.len()
        invariant
            k <= entries.len(),
            entries.len() == is_file.len(),
            out@ == kept_spec(entries@.subrange(0, k as int), is_file@.subrange(0, k as int)),
        decreases entries.len() - k,
    {
        assert(entries@.subrange(0, k + 1).drop_last() =~= entries@.subrange(0, k as int));
        assert(is_file@.subrange(0, k + 1).drop_last() =~= is_file@.subrange(0, k as int));
        match &entries[k] {
            Some(p) => {
                if is_file[k] {
                    out.push(p.clone());
                }
            },
            None => {},
        }
        k += 1;
    }
    assert(entries@.subrange(0, entries.len() as int) =~= entries@);
    assert(is_file@.subrange(0, is_file.len() as int) =~= is_file@);
    out
}

/// The result of an expansion from the entries kept over all patterns: no
/// kept entry is `GlobNoMatch` with the pattern list; otherwise the kept
/// entries sorted, duplicates kept.
pub fn finish_matches(kept: Vec<String>, patterns: &[String]) -> (r: Result<Vec<String>, YankError>)
    ensures
        kept.len() == 0 ==> (r matches Err(YankError::GlobNoMatch(ps)) && ps@ == patterns@),
        kept.len() > 0 ==> (r matches Ok(v) && v@.to_multiset() == kept@.to_multiset() && sorted(v@)
            && v.len() == kept.len()),
{
    if kept.len() == 0 {
        return Err(YankError::GlobNoMatch(copy_strings(patterns)));
    }
    let ghost k = kept@;
    let v = sort_paths(kept);
    proof {
        vstd::seq_lib::to_multiset_len(k);
        vstd::seq_lib::to_multiset_len(v@);
    }
    Ok(v)
}

/// What the expansion of one pattern got: the entries the `glob` crate
/// yielded, and for each readable entry the filesystem's answer to whether
/// it is a regular file.
pub struct PatternAnswers {
    /// The entries yielded, in order.
    pub entries: Seq<Option<String>>,
    /// One per entry: the question asked of a readable entry; none for an
    /// entry that could not be read.
    pub probes: Seq<Option<Probe>>,
}

/// Whether each readable entry, and only those, was asked about, by its
/// own path.
pub open spec fn probes_fit(pa: PatternAnswers) -> bool {
    &&& pa.probes.len() == pa.entries.len()
    &&& forall|k: int|
        0 <= k < pa.entries.len() ==> match #[trigger] pa.entries[k] {
            Some(p) => pa.probes[k] matches Some(q) && q.path_asked() == p@,
            None => pa.probes[k] is None,
        }
}

/// For each entry, whether the filesystem reported it as a regular file
/// (`false` for an entry not asked about).
pub open spec fn file_answers(pa: PatternAnswers) -> Seq<bool> {
    Seq::new(
        pa.probes.len(),
        |k: int| pa.probes[k] matches Some(q) && q.reported_file(),
    )
}

/// The entries kept over the recorded expansions, pattern after pattern.
pub open spec fn kept_all(ans: Seq<PatternAnswers>) -> Seq<String>
    decreases ans.len(),
{
    if ans.len() == 0 {
        Seq::empty()
    } else {
        kept_all(ans.drop_last()) + kept_spec(ans.last().entries, file_answers(ans.last()))
    }
}

/// Whether `r` is the outcome of expanding `patterns` in `cwd` given the
/// recorded answers `ans`, one per pattern expanded, in order.
///
/// The patterns are taken in turn: each is checked (`**` first, then `/`)
/// and expanded; the first that fails the check or that the `glob` crate
/// rejects ends the expansion with its error. When all are expanded, the
/// kept entries of all patterns are returned sorted, duplicates kept, or
/// `GlobNoMatch` with the pattern list when there are none.
pub open spec fn expansion_fits(
    patterns: Seq<String>,
    cwd: Seq<char>,
    ans: Seq<PatternAnswers>,
    r: Result<Vec<String>, YankError>,
) -> bool {
    &&& ans.len() <= patterns.len()
    &&& all_plain(patterns.subrange(0, ans.len() as int))
    &&& forall|j: int|
        0 <= j < ans.len() ==> glob_pattern_error(anchored_spec(cwd, #[trigger] patterns[j]@))
            is None
    &&& forall|j: int| 0 <= j < ans.len() ==> probes_fit(#[trigger] ans[j])
    &&& match r {
        Ok(v) => ans.len() == patterns.len() && kept_all(ans).len() > 0 && sorted(v@)
            && v@.to_multiset() == kept_all(ans).to_multiset(),
        Err(YankError::GlobNoMatch(ps)) => ans.len() == patterns.len() && kept_all(ans).len() == 0
            && ps@ == patterns,
        Err(YankError::RecursiveGlobRejected(p)) => ans.len() < patterns.len() && p@ == patterns[ans.len() as int]@
            && has_double_star(p@),
        Err(YankError::GlobHasSlash(p)) => ans.len() < patterns.len() && p@ == patterns[ans.len() as int]@
            && has_slash(p@) && !has_double_star(p@),
        Err(YankError::InvalidUsage(m)) => ans.len() < patterns.len() && is_plain(
            patterns[ans.len() as int]@,
        ) && (glob_pattern_error(anchored_spec(cwd, patterns[ans.len() as int]@)) matches Some(e)
            && m@ == invalid_pattern_message(patterns[ans.len() as int]@, e)),
        _ => false,
    }
}

/// Expand `patterns` in the directory `cwd`, returning the answers the
/// `glob` crate and the filesystem gave on the way; the outcome is
/// [`expansion_fits`] of exactly those answers.
pub fn expand_in<F: FileSystem>(patterns: &[String], cwd: &str, fs: &F) -> (res: (
    Result<Vec<String>, YankError>,
    Ghost<Seq<PatternAnswers>>,
))
    ensures
        expansion_fits(patterns@, cwd@, res.1@, res.0),
{
    let mut out: Vec<String> = Vec::new();
    let ghost mut ans: Seq<PatternAnswers> = Seq::empty();
    let mut i: usize = 0;
    while i < patterns.len()
        invariant
            i <= patterns.len(),
            ans.len() == i,
            all_plain(patterns@.subrange(0, i as int)),
            forall|j: int|
                0 <= j < i ==> glob_pattern_error(anchored_spec(cwd@, #[trigger] patterns@[j]@))
                    is None,
            forall|j: int| 0 <= j < i ==> probes_fit(#[trigger] ans[j]),
            out@ == kept_all(ans),
        decreases patterns.len() - i,
    {
        let pattern = &patterns[i];
        match check_pattern(pattern) {
            Ok(()) => {},
            Err(e) => {
                return (Err(e), Ghost(ans));
            },
        }
        assert(patterns@.subrange(0, i + 1) =~= patterns@.subrange(0, i as int).push(*pattern));
        let mut anchored = String::from_str(cwd);
        anchored.append("/");
        anchored.append(pattern.as_str());
        let entries = match glob_entries(anchored.as_str()) {
            Ok(es) => es,
            Err(m) => {
                return (Err(invalid_pattern_error(pattern, &m)), Ghost(ans));
            },
        };
        let mut answers: Vec<bool> = Vec::new();
        let ghost mut probes: Seq<Option<Probe>> = Seq::empty();
        let mut k: usize = 0;
        while k < entries.len()
            invariant
                k <= entries.len(),
                answers.len() == k,
                probes.len() == k,
                forall|m: int|
                    0 <= m < k ==> answers@[m] == (probes[m] matches Some(q) && q.reported_file()),
                forall|m: int|
                    0 <= m < k ==> match #[trigger] entries@[m] {
                        Some(p) => probes[m] matches Some(q) && q.path_asked() == p@,
                        None => probes[m] is None,
                    },
            decreases entries.len() - k,
        {
            let (a, pr) = match &entries[k] {
                Some(p) => {
                    let (f, g) = probe_file(fs, p.as_str());
                    (f, Ghost(Some(g@)))
                },
                None => (false, Ghost(None)),
            };
            proof {
                probes = probes.push(pr@);
            }
            answers.push(a);
            k += 1;
        }
        let kept = keep_files(&entries, &answers);
        let ghost before = out@;
        let mut q: usize = 0;
        while q < kept.len()
            invariant
                q <= kept.len(),
                out@ == before + kept@.subrange(0, q as int),
            decreases kept.len() - q,
        {
            out.push(kept[q].clone());
            q += 1;
        }
        let ghost pa = PatternAnswers { entries: entries@, probes };
        proof {
            assert(answers@ =~= file_answers(pa));
            assert(probes_fit(pa));
            assert(kept@.subrange(0, kept.len() as int) =~= kept@);
            assert(ans.push(pa).drop_last() =~= ans);
            ans = ans.push(pa);
        }
        i += 1;
    }
    assert(patterns@.subrange(0, patterns.len() as int) =~= patterns@);
    (finish_matches(out, patterns), Ghost(ans))
}

/// What expanding a pattern list asked and got: the working directory the
/// filesystem gave (asked only when there are patterns), and the answers of
/// each pattern's expansion.
pub struct GlobTrace {
    /// The answer of [`FileSystem::cwd`], when asked.
    pub cwd: Option<CwdAnswer>,
    /// The answers of [`expand_in`].
    pub patterns: Seq<PatternAnswers>,
}

/// Whether `r` is the outcome of [`expand_globs`] on `patterns` given the
/// recorded answers `t`: no patterns give an empty list without asking;
/// otherwise an error from asking for the working directory is passed on,
/// and the patterns are expanded there ([`expansion_fits`]).
pub open spec fn globs_fit(patterns: Seq<String>, t: GlobTrace, r: Result<Vec<String>, YankError>) -> bool {
    if patterns.len() == 0 {
        t.cwd is None && (r matches Ok(v) && v.len() == 0)
    } else {
        match t.cwd {
            Some(a) => match a.answer() {
                Ok(c) => expansion_fits(patterns, c@, t.patterns, r),
                Err(e) => r matches Err(x) && x == e,
            },
            None => false,
        }
    }
}

/// [`expand_globs`], returning the answers it got on the way.
pub fn expand_globs_recorded<F: FileSystem>(patterns: &[String], fs: &F) -> (res: (
    Result<Vec<String>, YankError>,
    Ghost<GlobTrace>,
))
    ensures
        globs_fit(patterns@, res.1@, res.0),
{
    if patterns.len() == 0 {
        return (Ok(Vec::new()), Ghost(GlobTrace { cwd: None, patterns: Seq::empty() }));
    }
    let (answer, cwd_answer) = ask_cwd(fs);
    let cwd = match answer {
        Ok(c) => c,
        Err(e) => {
            return (Err(e), Ghost(GlobTrace { cwd: Some(cwd_answer@), patterns: Seq::empty() }));
        },
    };
    let (r, ans) = expand_in(patterns, cwd.as_str(), fs);
    (r, Ghost(GlobTrace { cwd: Some(cwd_answer@), patterns: ans@ }))
}

/// Expand a list of single-level glob patterns into matching file paths
/// ([`expand_in`] the filesystem's working directory).
///
/// No patterns: an empty list, without consulting the filesystem. An error
/// from asking for the working directory is passed on. The outcome is
/// [`globs_fit`] of the answers the filesystem and the `glob` crate gave
/// (see [`expand_globs_recorded`]).
pub fn expand_globs<F: FileSystem>(patterns: &[String], fs: &F) -> (r: Result<
    Vec<String>,
    YankError,
>)
    ensures
        patterns.len() == 0 ==> (r matches Ok(v) && v.len() == 0),
        !all_plain(patterns@) ==> r is Err,
        exists|t: GlobTrace| #[trigger] globs_fit(patterns@, t, r),
{
    let (r, t) = expand_globs_recorded(patterns, fs);
    proof {
        assert(globs_fit(patterns@, t@, r));
        if r is Ok && patterns.len() > 0 {
            assert(patterns@.subrange(0, patterns.len() as int) =~= patterns@);
        }
    }
    r
}

} // verus!
