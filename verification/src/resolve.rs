//! Strict, all-or-nothing operand resolution.
//!
//! Every operand must exist; the first one that does not aborts the whole
//! call with [`YankError::NotFound`], so no partial output is produced. Order
//! is preserved and duplicates are kept.
use vstd::prelude::*;

use crate::error::YankError;
use crate::fs::{ask_cwd, CwdAnswer, look_canonical, look_up, FileSystem, Look};
use crate::path::{
    absolutize, absolutize_spec, lemma_normalize_idempotent, normalize_components, normalize_spec,
};

verus! {

/// A string in normal form: normalising it gives it back.
pub open spec fn is_normal(s: Seq<char>) -> bool {
    normalize_spec(s) == s
}

/// The resolved form of an operand whose absolute form is `abs`, given
/// the canonical form `c` the filesystem gave (if any): normalised.
pub open spec fn resolved_form(abs: Seq<char>, c: Option<Seq<char>>) -> Seq<char> {
    normalize_spec(
        match c {
            Some(c) => c,
            None => abs,
        },
    )
}

/// The resolved form of one operand: its canonical form when the
/// filesystem gave one, its absolute form otherwise, normalised.
pub fn resolve_one(abs: &str, canonical: Option<String>) -> (r: String)
    ensures
        r@ == normalize_spec(
            match canonical {
                Some(c) => c@,
                None => abs@,
            },
        ),
        is_normal(r@),
{
    let r = match &canonical {
        Some(c) => normalize_components(c.as_str()),
        None => normalize_components(abs),
    };
    proof {
        lemma_normalize_idempotent(
            match canonical {
                Some(c) => c@,
                None => abs@,
            },
        );
    }
    r
}

/// Whether `r` is the outcome of resolving `operands` against `cwd` given
/// the recorded look-ups `looks`, one per operand looked up, in order.
///
/// The absolute forms of the operands are looked up in turn; the first the
/// filesystem reports missing ends the resolution with `NotFound`, carrying
/// the operand as the caller typed it. When all exist, each resolves to the
/// [`resolved_form`] of its absolute form and the canonical form given.
pub open spec fn resolution_fits(
    operands: Seq<String>,
    cwd: Seq<char>,
    looks: Seq<Look>,
    r: Result<Vec<String>, YankError>,
) -> bool {
    &&& looks.len() <= operands.len()
    &&& forall|j: int|
        0 <= j < looks.len() ==> (#[trigger] looks[j]).path_asked() == absolutize_spec(operands[j]@, cwd)
    &&& forall|j: int| 0 <= j < looks.len() - 1 ==> (#[trigger] looks[j]).reported_exists()
    &&& match r {
        Ok(v) => looks.len() == operands.len() && v.len() == operands.len() && (forall|j: int|
            0 <= j < looks.len() ==> (#[trigger] looks[j]).reported_exists()) && (forall|j: int|
            0 <= j < v.len() ==> (#[trigger] v@[j])@ == resolved_form(
                looks[j].path_asked(),
                look_canonical(looks[j]),
            )),
        Err(YankError::NotFound(p)) => looks.len() >= 1 && !looks.last().reported_exists() && p@
            == operands[looks.len() - 1]@,
        _ => false,
    }
}

/// Strict resolution: an operand whose absolute form the filesystem
/// reported missing makes the resolution `NotFound` with that operand as
/// typed, every earlier one having been reported to exist; and when every
/// operand was looked up and reported to exist, the resolution succeeds
/// with one normalised path per operand, each its canonical form when one
/// was given and its absolute form otherwise.
pub proof fn lemma_resolution_is_strict(
    operands: Seq<String>,
    cwd: Seq<char>,
    looks: Seq<Look>,
    r: Result<Vec<String>, YankError>,
)
    requires
        resolution_fits(operands, cwd, looks, r),
    ensures
        forall|k: int|
            0 <= k < looks.len() && !(#[trigger] looks[k]).reported_exists() ==> (r matches Err(
                YankError::NotFound(p),
            ) && p@ == operands[k]@ && k == looks.len() - 1),
        (looks.len() == operands.len() && forall|j: int|
            0 <= j < looks.len() ==> (#[trigger] looks[j]).reported_exists()) ==> (r matches Ok(v)
            && v.len() == operands.len() && forall|j: int|
            0 <= j < v.len() ==> (#[trigger] v@[j])@ == normalize_spec(
                match look_canonical(looks[j]) {
                    Some(c) => c,
                    None => absolutize_spec(operands[j]@, cwd),
                },
            )),
{
    assert forall|k: int|
        0 <= k < looks.len() && !(#[trigger] looks[k]).reported_exists() implies (r matches Err(
            YankError::NotFound(p),
        ) && p@ == operands[k]@ && k == looks.len() - 1) by {
        if k < looks.len() - 1 {
            assert(looks[k].reported_exists());
        }
        if r is Ok {
            assert(looks[k].reported_exists());
        }
    }
    if looks.len() == operands.len() && forall|j: int|
        0 <= j < looks.len() ==> (#[trigger] looks[j]).reported_exists() {
        if looks.len() > 0 {
            assert(looks.last().reported_exists());
        }
    }
}

/// Resolve each operand against the working directory `cwd`, verifying
/// that it exists, and return the look-ups made on the way.
///
/// The outcome is [`resolution_fits`] of exactly those look-ups: on success
/// the paths come in input order, one per operand, each normalised; the
/// only error is `NotFound` for the first operand the filesystem does not
/// report as existing.
pub fn resolve_against<F: FileSystem>(operands: &[String], cwd: &str, fs: &F) -> (res: (
    Result<Vec<String>, YankError>,
    Ghost<Seq<Look>>,
))
    ensures
        resolution_fits(operands@, cwd@, res.1@, res.0),
        res.0 matches Ok(v) ==> forall|i: int| 0 <= i < v.len() ==> is_normal(#[trigger] v@[i]@),
{
    let mut resolved: Vec<String> = Vec::new();
    let ghost mut looks: Seq<Look> = Seq::empty();
    let mut i: usize = 0;
    while i < operands.len()
        invariant
            i <= operands.len(),
            resolved.len() == i,
            looks.len() == i,
            forall|j: int| 0 <= j < resolved.len() ==> is_normal(#[trigger] resolved@[j]@),
            forall|j: int|
                0 <= j < looks.len() ==> (#[trigger] looks[j]).path_asked() == absolutize_spec(
                    operands@[j]@,
                    cwd@,
                ),
            forall|j: int| 0 <= j < looks.len() ==> (#[trigger] looks[j]).reported_exists(),
            forall|j: int|
                0 <= j < resolved.len() ==> (#[trigger] resolved@[j])@ == resolved_form(
                    looks[j].path_asked(),
                    look_canonical(looks[j]),
                ),
        decreases operands.len() - i,
    {
        let operand = &operands[i];
        let abs = absolutize(operand.as_str(), cwd);
        let (found, canonical, look) = look_up(fs, abs.as_str());
        proof {
            assert(looks.push(look@)[i as int] == look@);
            looks = looks.push(look@);
        }
        if !found {
            let missing = operand.clone();
            assert(operands@[i as int]@ == missing@);
            return (Err(YankError::NotFound(missing)), Ghost(looks));
        }
        let final_path = resolve_one(abs.as_str(), canonical);
        let ghost before = resolved@;
        resolved.push(final_path);
        assert forall|j: int| 0 <= j < resolved.len() implies (#[trigger] resolved@[j])@
            == resolved_form(looks[j].path_asked(), look_canonical(looks[j])) by {
            if j < before.len() {
                assert(resolved@[j] == before[j]);
            }
        }
        i += 1;
    }
    (Ok(resolved), Ghost(looks))
}

/// What resolving an operand list asked and got: the working directory the
/// filesystem gave (asked only when there are operands), and the look-ups.
pub struct ResolveTrace {
    /// The answer of [`FileSystem::cwd`], when asked.
    pub cwd: Option<CwdAnswer>,
    /// The look-ups of [`resolve_against`].
    pub looks: Seq<Look>,
}

/// Whether `r` is the outcome of [`resolve_operands`] on `operands` given
/// the recorded answers `t`: no operands give an empty list without asking;
/// otherwise an error from asking for the working directory is passed on,
/// and the operands are resolved against it ([`resolution_fits`]).
pub open spec fn resolves_fit(operands: Seq<String>, t: ResolveTrace, r: Result<
    Vec<String>,
    YankError,
>) -> bool {
    if operands.len() == 0 {
        t.cwd is None && (r matches Ok(v) && v.len() == 0)
    } else {
        match t.cwd {
            Some(a) => match a.answer() {
                Ok(c) => resolution_fits(operands, c@, t.looks, r),
                Err(e) => r matches Err(x) && x == e,
            },
            None => false,
        }
    }
}

/// [`resolve_operands`], returning the answers it got on the way.
pub fn resolve_operands_recorded<F: FileSystem>(operands: &[String], fs: &F) -> (res: (
    Result<Vec<String>, YankError>,
    Ghost<ResolveTrace>,
))
    ensures
        resolves_fit(operands@, res.1@, res.0),
        res.0 matches Ok(v) ==> forall|i: int| 0 <= i < v.len() ==> is_normal(#[trigger] v@[i]@),
{
    if operands.len() == 0 {
        return (Ok(Vec::new()), Ghost(ResolveTrace { cwd: None, looks: Seq::empty() }));
    }
    let (answer, cwd_answer) = ask_cwd(fs);
    let cwd = match answer {
        Ok(c) => c,
        Err(e) => {
            return (Err(e), Ghost(ResolveTrace { cwd: Some(cwd_answer@), looks: Seq::empty() }));
        },
    };
    let (r, looks) = resolve_against(operands, cwd.as_str(), fs);
    (r, Ghost(ResolveTrace { cwd: Some(cwd_answer@), looks: looks@ }))
}

/// Resolve each operand to an absolute, normalised path, verifying that it
/// exists ([`resolve_against`] the filesystem's working directory).
///
/// No operands: an empty list, without consulting the filesystem. An error
/// from asking for the working directory is passed on. The outcome is
/// [`resolves_fit`] of the answers the filesystem gave (see
/// [`resolve_operands_recorded`]).
pub fn resolve_operands<F: FileSystem>(operands: &[String], fs: &F) -> (r: Result<
    Vec<String>,
    YankError,
>)
    ensures
        operands.len() == 0 ==> (r matches Ok(v) && v.len() == 0),
        r matches Ok(v) ==> v.len() == operands.len() && forall|i: int|
            0 <= i < v.len() ==> is_normal(#[trigger] v@[i]@),
        exists|t: ResolveTrace| #[trigger] resolves_fit(operands@, t, r),
{
    let (r, t) = resolve_operands_recorded(operands, fs);
    assert(resolves_fit(operands@, t@, r));
    r
}

} // verus!
