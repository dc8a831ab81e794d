//! The pipeline: anchor choice, operand gathering, strict resolution,
//! rendering, and emission to the clipboard and the output sink.
//!
//! [`App`] glues the injected collaborators together. Everything up to the
//! rendered text happens without touching the clipboard or the sink, so a
//! failing operand or option leaves both untouched. The effects on the
//! clipboard and the sink are kept, as a ghost trace, so that their order
//! and number are stated by the contract of [`App::run`].
use vstd::prelude::*;

use crate::anchor::vcs::vcs_render_spec;
use crate::anchor::{
    answers_fit, render_recorded, rendered_spec, renders_by, Anchor, AnchorRenderer, Answers,
    RenderContext, VcsRenderer,
};
use crate::cli::{anchor_option_count, from_anchor_spec, Cli};
use crate::clipboard::{join_lines, join_with_newlines, Clipboard, OutputSink};
use crate::error::YankError;
use crate::fs::{ask_cwd, ask_home, CwdAnswer, FileSystem, HomeAnswer};
use crate::gitroot::{ask_root, GitRootDetector, RootAnswer};
use crate::glob::{expand_globs_recorded, globs_fit, kept_all, sorted, GlobTrace};
use crate::resolve::{resolve_operands_recorded, resolves_fit, ResolveTrace};
use crate::text::{
    byte_prefix, byte_prefix_exec, chars_of, copy_strings, join_sep, join_strings, string_of,
    strings_view, utf8_len, utf8_len_is,
};
use crate::vcs::{
    ask_info, ask_verify, copy_opt, opt_view, InfoAnswer, RemoteVerifier, VcsInfo, VcsInfoProvider,
    VerifyAnswer, VerifyOutcome,
};

verus! {

// ---------------------------------------------------------------------------
// Effects on the clipboard and the sink
// ---------------------------------------------------------------------------

/// What the clipboard answered to a copy.
pub enum CopyResult {
    /// The text was copied.
    Copied,
    /// The clipboard reported itself unavailable.
    Unavailable,
    /// The clipboard failed otherwise; the run ends with that error.
    Failed,
}

/// One call of the pipeline on the clipboard or the sink, with the answer.
pub enum Effect {
    /// The clipboard was asked whether it is available, and answered.
    Asked(bool),
    /// Text handed to the clipboard, and what the clipboard answered.
    Copy(Seq<char>, CopyResult),
    /// A line written to the sink, and whether the write succeeded.
    Write(Seq<char>, bool),
    /// The sink flushed, and whether that succeeded.
    Flush(bool),
}

/// The calls of emitting the output text `out`, given the options
/// `no_copy` and `print` and the clipboard's answers: whether it is
/// available, and what it answered to the copy. Every write here
/// succeeds; a failed copy ends the emission.
pub open spec fn emission(
    no_copy: bool,
    print: bool,
    out: Seq<char>,
    available: bool,
    copy: CopyResult,
) -> Seq<Effect> {
    if no_copy {
        if print {
            seq![Effect::Write(out, true)]
        } else {
            Seq::empty()
        }
    } else if !available {
        seq![Effect::Asked(false), Effect::Write(out, true)]
    } else {
        match copy {
            CopyResult::Copied => if print {
                seq![Effect::Asked(true), Effect::Copy(out, CopyResult::Copied), Effect::Write(out, true)]
            } else {
                seq![Effect::Asked(true), Effect::Copy(out, CopyResult::Copied)]
            },
            CopyResult::Unavailable => seq![
                Effect::Asked(true),
                Effect::Copy(out, CopyResult::Unavailable),
                Effect::Write(out, true),
            ],
            CopyResult::Failed => seq![Effect::Asked(true), Effect::Copy(out, CopyResult::Failed)],
        }
    }
}

/// The calls of a run that emits `out`: the emission, then a flush that
/// succeeds.
pub open spec fn run_effects(
    no_copy: bool,
    print: bool,
    out: Seq<char>,
    available: bool,
    copy: CopyResult,
) -> Seq<Effect> {
    emission(no_copy, print, out, available, copy).push(Effect::Flush(true))
}

/// A call as it is when its collaborator reports failure.
pub open spec fn failed(e: Effect) -> Effect {
    match e {
        Effect::Asked(b) => Effect::Asked(b),
        Effect::Copy(o, _) => Effect::Copy(o, CopyResult::Failed),
        Effect::Write(o, _) => Effect::Write(o, false),
        Effect::Flush(_) => Effect::Flush(false),
    }
}

/// Whether `t` is what a successful run leaves for the output text `out`:
/// the calls that the clipboard's answers in `t` lead to, none failing.
pub open spec fn is_run_trace(no_copy: bool, print: bool, out: Seq<char>, t: Seq<Effect>) -> bool {
    exists|available: bool, copy: CopyResult|
        !(copy is Failed) && #[trigger] run_effects(no_copy, print, out, available, copy) == t
}

/// Whether `t` is a run on `out` cut short by a collaborator: the calls of
/// a successful run up to one that failed, that one included.
pub open spec fn is_failed_run(no_copy: bool, print: bool, out: Seq<char>, t: Seq<Effect>) -> bool {
    exists|available: bool, copy: CopyResult, k: int|
        #![trigger run_effects(no_copy, print, out, available, copy).subrange(0, k)]
        0 <= k < run_effects(no_copy, print, out, available, copy).len() && !(run_effects(
            no_copy,
            print,
            out,
            available,
            copy,
        )[k] is Asked) && t == run_effects(no_copy, print, out, available, copy).subrange(
            0,
            k,
        ).push(failed(run_effects(no_copy, print, out, available, copy)[k]))
}

// ---------------------------------------------------------------------------
// What a run computed
// ---------------------------------------------------------------------------

/// Whether the options select the VCS anchor.
pub open spec fn selects_vcs(cli: Cli) -> bool {
    cli.vcs && anchor_option_count(cli) <= 1
}

/// Whether `a` is the anchor the options choose ([`Cli::anchor`]).
pub open spec fn chooses(cli: Cli, a: Anchor) -> bool {
    &&& anchor_option_count(cli) <= 1
    &&& match cli.from {
        Some(f) => a == from_anchor_spec(f),
        None => if cli.absolute {
            a == Anchor::Absolute
        } else {
            match cli.relative_to {
                Some(b) => a matches Anchor::RelativeTo(x) && x@ == b@,
                None => if cli.vcs {
                    a == Anchor::Vcs
                } else {
                    a == Anchor::Home
                },
            }
        },
    }
}

/// Whether `ops` are the operands of the options given the glob matches
/// `g`: the path operands, then the matches in their order; `.` alone when
/// there are neither path operands nor patterns.
pub open spec fn gathered(cli: Cli, g: Seq<String>, ops: Seq<String>) -> bool {
    if cli.paths.len() == 0 && cli.glob.len() == 0 {
        ops.len() == 1 && ops[0]@ == "."@
    } else {
        ops == cli.paths@ + g
    }
}

/// Whether `out` is the outcome of rendering `targets` one after the other
/// under the non-VCS anchor `a`, given the recorded answers of each
/// rendering attempted: the first the anchor refuses ends the rendering
/// with its error; otherwise one line per target.
pub open spec fn renders_fit(
    a: Anchor,
    targets: Seq<String>,
    cwd: Seq<char>,
    home: Option<String>,
    git_root: Option<String>,
    answers: Seq<Answers>,
    out: Result<Seq<Seq<char>>, YankError>,
) -> bool {
    &&& answers.len() <= targets.len()
    &&& forall|i: int|
        0 <= i < answers.len() ==> answers_fit(a, targets[i]@, cwd, git_root, #[trigger] answers[i])
    &&& forall|i: int|
        0 <= i < answers.len() - 1 ==> rendered_spec(
            a,
            targets[i]@,
            cwd,
            home,
            git_root,
            #[trigger] answers[i],
        ) is Some
    &&& match out {
        Ok(lines) => answers.len() == targets.len() && lines.len() == targets.len() && forall|i: int|
            0 <= i < lines.len() ==> rendered_spec(a, targets[i]@, cwd, home, git_root, answers[i])
                == Some(#[trigger] lines[i]),
        Err(e) => answers.len() >= 1 && rendered_spec(
            a,
            targets[answers.len() - 1]@,
            cwd,
            home,
            git_root,
            answers.last(),
        ) is None && renders_by(
            a,
            targets[answers.len() - 1]@,
            cwd,
            home,
            git_root,
            answers.last(),
            Err(e),
        ),
    }
}

/// The calls of a VCS rendering on the collaborators: the provider asked
/// once for the metadata of `root` and `remote`, with its answer; the
/// number of paths whose rendering was attempted; and (with
/// `--vcs-verify`, after all paths rendered) the ref checked on the remote,
/// once, with the outcome.
pub struct VcsRecord {
    /// The provider's answer, with the root and remote asked about.
    pub asked: InfoAnswer,
    /// How many paths were rendered (the last one failing, on an error).
    pub attempted: int,
    /// The verifier's answer, with the ref asked about.
    pub verify: Option<VerifyAnswer>,
}

/// The outcome of the remote check in a VCS record (`Present` when none was
/// made, which yields no line).
pub open spec fn outcome_of(v: VcsRecord) -> VerifyOutcome {
    match v.verify {
        Some(q) => q.outcome(),
        None => VerifyOutcome::Present,
    }
}

/// Whether `out` is the outcome of rendering `targets` under the VCS anchor
/// with the calls `vo`: without a repository root, a VCS error and no call;
/// otherwise the provider is asked for the root and the chosen remote, and
/// its error is passed on; then each target is rendered in turn, the first
/// failing ending the rendering with its error; when all render, the ref
/// the URLs use is checked on the remote exactly when `--vcs-verify` is
/// given.
pub open spec fn vcs_fits(
    cli: Cli,
    targets: Seq<String>,
    cwd: Seq<char>,
    git_root: Option<String>,
    vo: Option<VcsRecord>,
    out: Result<Seq<Seq<char>>, YankError>,
) -> bool {
    match git_root {
        None => vo is None && (out matches Err(YankError::Vcs(m)) && m@ == "not in a repository"@),
        Some(rt) => vo matches Some(v) && v.asked.root() == rt@ && v.asked.remote() == remote_choice(
            cli,
        ) && match v.asked.answer() {
            Err(e) => v.verify is None && (out matches Err(x) && x == e),
            Ok(info) => {
                &&& 0 <= v.attempted <= targets.len()
                &&& forall|i: int|
                    0 <= i < v.attempted - 1 ==> vcs_render_spec(
                        info,
                        cli.vcs_default_branch,
                        cli.vcs_branch_fallback,
                        #[trigger] targets[i]@,
                        cwd,
                        git_root,
                    ) is Ok
                &&& match out {
                    Ok(lines) => v.attempted == targets.len() && lines.len() == targets.len()
                        && (forall|i: int|
                        0 <= i < lines.len() ==> vcs_render_spec(
                            info,
                            cli.vcs_default_branch,
                            cli.vcs_branch_fallback,
                            targets[i]@,
                            cwd,
                            git_root,
                        ) == Ok::<Seq<char>, Seq<char>>(#[trigger] lines[i])) && (v.verify is Some)
                        == cli.vcs_verify && (v.verify matches Some(q) ==> q.git_ref()
                        == verify_ref_spec(info, cli.vcs_default_branch, cli.vcs_branch_fallback)
                        && q.root() == rt@ && q.remote() == remote_choice(cli)),
                    Err(e) => v.attempted >= 1 && v.verify is None && (vcs_render_spec(
                        info,
                        cli.vcs_default_branch,
                        cli.vcs_branch_fallback,
                        targets[v.attempted - 1]@,
                        cwd,
                        git_root,
                    ) matches Err(m) && (e matches YankError::Vcs(x) && x@ == m)),
                }
            },
        },
    }
}

/// What a run computed before emitting, with the answers of the
/// collaborators it asked. A stage not reached holds an arbitrary value.
pub struct RunRecord {
    /// The anchor chosen.
    pub anchor: Anchor,
    /// The answers of the glob expansion, and its outcome.
    pub globs: GlobTrace,
    /// The outcome of the glob expansion.
    pub glob_result: Result<Vec<String>, YankError>,
    /// The operands: path operands, then glob matches (or `.`).
    pub operands: Seq<String>,
    /// The answers of the resolution.
    pub resolution: ResolveTrace,
    /// The outcome of the resolution.
    pub resolve_result: Result<Vec<String>, YankError>,
    /// The working directory the filesystem gave for rendering.
    pub cwd_answer: CwdAnswer,
    /// The home directory it gave.
    pub home: HomeAnswer,
    /// The repository root the detector gave when asked.
    pub git_root: RootAnswer,
    /// The calls of the VCS rendering, for the VCS anchor.
    pub vcs: Option<VcsRecord>,
    /// The answers of each rendering attempted, for the other anchors.
    pub answers: Seq<Answers>,
}

/// Whether `out` (the rendered lines, or the error of the run) is the
/// outcome of steps 2 to 4 of [`App::run`] given the record `rc`: the glob
/// matches are gathered after the path operands, the operands resolved
/// strictly, the working directory asked for, and each resolved operand
/// rendered in order; the first stage that fails gives the run its error,
/// passed on as it came.
pub open spec fn pipeline_fits(cli: Cli, rc: RunRecord, out: Result<Seq<Seq<char>>, YankError>) -> bool {
    &&& chooses(cli, rc.anchor)
    &&& globs_fit(cli.glob@, rc.globs, rc.glob_result)
    &&& match rc.glob_result {
        Err(e) => out matches Err(x) && x == e,
        Ok(g) => {
            &&& gathered(cli, g@, rc.operands)
            &&& resolves_fit(rc.operands, rc.resolution, rc.resolve_result)
            &&& match rc.resolve_result {
                Err(e) => out matches Err(x) && x == e,
                Ok(v) => match rc.cwd_answer.answer() {
                    Err(e) => out matches Err(x) && x == e,
                    Ok(c) => rc.git_root.start() == c@ && if rc.anchor is Vcs {
                        vcs_fits(cli, v@, c@, rc.git_root.root(), rc.vcs, out)
                    } else {
                        renders_fit(
                            rc.anchor,
                            v@,
                            c@,
                            rc.home.answer(),
                            rc.git_root.root(),
                            rc.answers,
                            out,
                        )
                    },
                },
            }
        },
    }
}

/// The remote the VCS anchor uses: `--vcs-remote`, or `origin`.
pub open spec fn remote_choice(cli: Cli) -> Seq<char> {
    match cli.vcs_remote {
        Some(r) => r@,
        None => "origin"@,
    }
}

/// An optional line as a list of lines.
pub open spec fn opt_lines(o: Option<Seq<char>>) -> Seq<Seq<char>> {
    match o {
        Some(x) => seq![x],
        None => Seq::empty(),
    }
}

/// The diagnostic lines of a VCS run, given the metadata and the outcome
/// of the remote check: the local-state warning, then (with `--vcs-verify`)
/// the line for the outcome.
pub open spec fn vcs_notes_spec(info: VcsInfo, cli: Cli, outcome: VerifyOutcome) -> Seq<Seq<char>> {
    opt_lines(vcs_warning_spec(info, remote_choice(cli))) + if cli.vcs_verify {
        opt_lines(
            verify_note_spec(
                verify_ref_spec(info, cli.vcs_default_branch, cli.vcs_branch_fallback),
                remote_choice(cli),
                outcome,
            ),
        )
    } else {
        Seq::empty()
    }
}

/// The diagnostic lines a run with the record `rc` leaves: those of the VCS
/// rendering when it succeeded, none otherwise.
pub open spec fn notes_of(cli: Cli, rc: RunRecord) -> Seq<Seq<char>> {
    match rc.vcs {
        Some(v) => match v.asked.answer() {
            Ok(info) => vcs_notes_spec(info, cli, outcome_of(v)),
            Err(_) => Seq::empty(),
        },
        None => Seq::empty(),
    }
}

/// Strict validation: when the filesystem reports an operand missing, the
/// outcome of the run is `NotFound` with that operand as the caller typed
/// it, and every operand before it was reported to exist.
pub proof fn lemma_missing_operand_fails_the_run(
    cli: Cli,
    rc: RunRecord,
    out: Result<Seq<Seq<char>>, YankError>,
    k: int,
)
    requires
        pipeline_fits(cli, rc, out),
        rc.glob_result is Ok,
        rc.resolution.cwd matches Some(c) && c.answer() is Ok,
        0 <= k < rc.resolution.looks.len(),
        !rc.resolution.looks[k].reported_exists(),
    ensures
        out matches Err(YankError::NotFound(p)) && p@ == rc.operands[k]@,
        forall|j: int| 0 <= j < k ==> (#[trigger] rc.resolution.looks[j]).reported_exists(),
{
    let looks = rc.resolution.looks;
    assert(rc.operands.len() > 0);
    assert(k == looks.len() - 1) by {
        if k < looks.len() - 1 {
            assert(looks[k].reported_exists());
        }
    }
    assert(rc.resolve_result is Err) by {
        if rc.resolve_result is Ok {
            assert(looks[k].reported_exists());
        }
    }
}

/// An expansion that keeps no entry over all patterns fails the run with
/// `GlobNoMatch` and the pattern list; otherwise its matches, sorted with
/// duplicates kept, follow the path operands.
pub proof fn lemma_glob_outcome_of_the_run(
    cli: Cli,
    rc: RunRecord,
    out: Result<Seq<Seq<char>>, YankError>,
)
    requires
        pipeline_fits(cli, rc, out),
        cli.glob.len() > 0,
        rc.globs.cwd matches Some(c) && c.answer() is Ok,
        rc.globs.patterns.len() == cli.glob.len(),
    ensures
        kept_all(rc.globs.patterns).len() == 0 ==> (out matches Err(YankError::GlobNoMatch(ps))
            && ps@ == cli.glob@),
        kept_all(rc.globs.patterns).len() > 0 ==> (rc.glob_result matches Ok(g) && rc.operands
            == cli.paths@ + g@ && sorted(g@) && g@.to_multiset() == kept_all(
            rc.globs.patterns,
        ).to_multiset()),
{
}

/// The remote check asks about the known commit SHA whenever there is one,
/// whatever the default branch and the fallback switch say.
pub proof fn lemma_remote_check_uses_the_sha(
    info: VcsInfo,
    default_branch: Option<String>,
    fallback: bool,
)
    ensures
        info.sha matches Some(s) ==> verify_ref_spec(info, default_branch, fallback) == s@,
{
}

/// The rendered lines of a prepared run, or its error.
pub open spec fn prepared_outcome(
    r: Result<(String, Vec<String>, Ghost<Seq<Seq<char>>>), YankError>,
) -> Result<Seq<Seq<char>>, YankError> {
    match r {
        Ok(p) => Ok(p.2@),
        Err(e) => Err(e),
    }
}

// ---------------------------------------------------------------------------
// The pipeline
// ---------------------------------------------------------------------------

/// Pipeline orchestrator over injected collaborators.
pub struct App<
    'a,
    F: FileSystem,
    G: GitRootDetector,
    P: VcsInfoProvider,
    V: RemoteVerifier,
    C: Clipboard,
    S: OutputSink,
> {
    fs: &'a F,
    git_detector: &'a G,
    vcs_provider: &'a P,
    verifier: &'a V,
    clipboard: &'a mut C,
    sink: &'a mut S,
    notes: Vec<String>,
    trace: Ghost<Seq<Effect>>,
    chosen: Ghost<Option<Anchor>>,
    record: Ghost<Option<(RunRecord, Result<Seq<Seq<char>>, YankError>)>>,
}

impl<
    'a,
    F: FileSystem,
    G: GitRootDetector,
    P: VcsInfoProvider,
    V: RemoteVerifier,
    C: Clipboard,
    S: OutputSink,
> App<'a, F, G, P, V, C, S> {
    /// The calls of the last run on the clipboard and the sink, with their
    /// answers, in order.
    pub closed spec fn trace(&self) -> Seq<Effect> {
        self.trace@
    }

    /// The anchor the last run chose, when the options allowed one.
    pub closed spec fn chosen(&self) -> Option<Anchor> {
        self.chosen@
    }

    /// What the last run computed before emitting, when it chose an
    /// anchor, with the outcome: the rendered lines or the error.
    pub closed spec fn record(&self) -> Option<(RunRecord, Result<Seq<Seq<char>>, YankError>)> {
        self.record@
    }

    /// The diagnostic lines of the last run.
    pub closed spec fn notes_spec(&self) -> Seq<String> {
        self.notes@
    }

    /// Construct an `App` from injected collaborators.
    pub fn new(
        fs: &'a F,
        git_detector: &'a G,
        vcs_provider: &'a P,
        verifier: &'a V,
        clipboard: &'a mut C,
        sink: &'a mut S,
    ) -> (r: Self)
        ensures
            r.trace().len() == 0,
            r.chosen() is None,
            r.record() is None,
            r.notes_spec().len() == 0,
    {
        App {
            fs,
            git_detector,
            vcs_provider,
            verifier,
            clipboard,
            sink,
            notes: Vec::new(),
            trace: Ghost(Seq::empty()),
            chosen: Ghost(None),
            record: Ghost(None),
        }
    }

    /// The diagnostic lines (warnings, notes) of the last run, to go to
    /// standard error.
    pub fn notes(&self) -> (r: &Vec<String>)
        ensures
            r@ == self.notes_spec(),
    {
        &self.notes
    }

    /// Execute the pipeline for parsed options.
    ///
    /// 1. Resolve the anchor; conflicting options fail here.
    /// 2. Gather operands: the paths, then the glob matches; `.` when both
    ///    are empty.
    /// 3. Resolve them strictly: any missing operand fails the run.
    /// 4. Render each under the anchor and join the results with `\n`.
    /// 5. Emit: with `--no-copy` the clipboard is never touched and the text
    ///    is written only with `--print`; otherwise the clipboard is asked
    ///    whether it is available: if not, the text is written to the sink;
    ///    if so, it is copied, and written too with `--print` or when the
    ///    clipboard then reports itself unavailable (never twice); any other
    ///    clipboard failure ends the run.
    /// 6. Flush the sink; success is exit code `0`.
    ///
    /// The record of the run holds what steps 2 to 4 asked and computed,
    /// with their outcome ([`pipeline_fits`]): the lines, or the error of
    /// the first stage that failed, which is the run's error. Steps 1 to 4
    /// make no call on the clipboard or the sink, so a failure there leaves
    /// the trace empty; a non-empty trace of a failed run ends with the call
    /// that failed. Diagnostic lines of the VCS anchor are kept in
    /// [`App::notes`].
    pub fn run(&mut self, cli: &Cli) -> (r: Result<i32, YankError>)
        ensures
            r matches Ok(c) ==> c == 0,
            final(self).record() matches Some(p) ==> pipeline_fits(*cli, p.0, p.1),
            r is Ok ==> (final(self).record() matches Some(p) && p.1 matches Ok(lines)
                && is_run_trace(cli.no_copy, cli.print, join_lines(lines), final(self).trace())),
            r matches Err(e) ==> (final(self).trace().len() == 0 && (final(self).record() matches Some(
                p,
            ) ==> (p.1 matches Err(x) && x == e))) || (final(self).record() matches Some(p)
                && p.1 matches Ok(lines) && is_failed_run(
                cli.no_copy,
                cli.print,
                join_lines(lines),
                final(self).trace(),
            )),
            final(self).record() matches Some(p) && p.1 is Err ==> r is Err
                && final(self).trace().len() == 0,
            anchor_option_count(*cli) > 1 ==> (r matches Err(YankError::ConflictingAnchors)
                && final(self).record() is None && final(self).trace().len() == 0),
            (anchor_option_count(*cli) <= 1) == (final(self).chosen() is Some),
            (final(self).chosen() is Some) == (final(self).record() is Some),
            final(self).chosen() matches Some(a) ==> chooses(*cli, a),
            final(self).record() matches Some(p) ==> final(self).chosen() == Some(p.0.anchor),
            r is Ok ==> (final(self).record() matches Some(p) && strings_view(
                final(self).notes_spec(),
            ) == notes_of(*cli, p.0)),
            r is Ok && !selects_vcs(*cli) ==> final(self).notes_spec().len() == 0,
    {
        self.trace = Ghost(Seq::empty());
        self.chosen = Ghost(None);
        self.record = Ghost(None);
        self.notes = Vec::new();
        let anchor = match cli.anchor() {
            Ok(a) => a,
            Err(e) => {
                return Err(e);
            },
        };
        let (prepared, rec) = self.prepare(cli, &anchor);
        proof {
            self.chosen@ = Some(anchor);
            self.record@ = Some((rec@, prepared_outcome(prepared)));
        }
        let (out, notes, lines) = match prepared {
            Ok(p) => p,
            Err(e) => {
                return Err(e);
            },
        };
        let emitted = self.emit(cli.no_copy, cli.print, &out);
        if let Err(e) = emitted {
            proof {
                let (a, c, k) = choose|a: bool, c: CopyResult, k: int|
                    0 <= k < emission(cli.no_copy, cli.print, out@, a, c).len() && !(emission(
                        cli.no_copy,
                        cli.print,
                        out@,
                        a,
                        c,
                    )[k] is Asked) && self.trace@ == #[trigger] emission(
                        cli.no_copy,
                        cli.print,
                        out@,
                        a,
                        c,
                    ).subrange(0, k).push(failed(emission(cli.no_copy, cli.print, out@, a, c)[k]));
                let em = emission(cli.no_copy, cli.print, out@, a, c);
                let full = run_effects(cli.no_copy, cli.print, out@, a, c);
                assert(full.subrange(0, k) =~= em.subrange(0, k));
                assert(full[k] == em[k]);
                assert(is_failed_run(cli.no_copy, cli.print, out@, self.trace()));
            }
            return Err(e);
        }
        self.notes = notes;
        let flushed = self.sink.flush();
        proof {
            let (a, c) = choose|a: bool, c: CopyResult|
                !(c is Failed) && self.trace@ == #[trigger] emission(
                    cli.no_copy,
                    cli.print,
                    out@,
                    a,
                    c,
                );
            let em = self.trace@;
            let full = run_effects(cli.no_copy, cli.print, out@, a, c);
            self.trace@ = self.trace@.push(Effect::Flush(flushed is Ok));
            if flushed is Ok {
                assert(full == self.trace@);
                assert(is_run_trace(cli.no_copy, cli.print, out@, self.trace()));
            } else {
                assert(full.subrange(0, em.len() as int) =~= em);
                assert(full[em.len() as int] == Effect::Flush(true));
                assert(full.subrange(0, em.len() as int).push(failed(full[em.len() as int]))
                    == self.trace@);
                assert(is_failed_run(cli.no_copy, cli.print, out@, self.trace()));
            }
        }
        if let Err(e) = flushed {
            return Err(e);
        }
        Ok(0)
    }

    /// Steps 2 to 4 of [`App::run`] under the chosen anchor: the output
    /// text, the diagnostic lines and the rendered lines, or the error of
    /// the first stage that failed; with the record of what was asked and
    /// computed. Makes no call on the clipboard or the sink.
    #[verifier::loop_isolation(false)]
    fn prepare(&self, cli: &Cli, anchor: &Anchor) -> (res: (
        Result<(String, Vec<String>, Ghost<Seq<Seq<char>>>), YankError>,
        Ghost<RunRecord>,
    ))
        requires
            chooses(*cli, *anchor),
        ensures
            res.1@.anchor == *anchor,
            pipeline_fits(*cli, res.1@, prepared_outcome(res.0)),
            res.0 matches Ok(p) ==> p.0@ == join_lines(p.2@) && strings_view(p.1@) == notes_of(
                *cli,
                res.1@,
            ),
            res.0 is Ok && !selects_vcs(*cli) ==> res.1@.vcs is None,
    {
        let ghost mut rc = RunRecord {
            anchor: *anchor,
            globs: vstd::pervasive::arbitrary(),
            glob_result: vstd::pervasive::arbitrary(),
            operands: vstd::pervasive::arbitrary(),
            resolution: vstd::pervasive::arbitrary(),
            resolve_result: vstd::pervasive::arbitrary(),
            cwd_answer: vstd::pervasive::arbitrary(),
            home: vstd::pervasive::arbitrary(),
            git_root: vstd::pervasive::arbitrary(),
            vcs: None,
            answers: Seq::empty(),
        };
        let (glob_result, globs) = expand_globs_recorded(cli.glob.as_slice(), self.fs);
        proof {
            rc.globs = globs@;
            rc.glob_result = glob_result;
        }
        let glob_matches = match glob_result {
            Ok(m) => m,
            Err(e) => {
                return (Err(e), Ghost(rc));
            },
        };
        let mut operands = copy_strings(cli.paths.as_slice());
        let mut i: usize = 0;
        while i < glob_matches.len()
            invariant
                i <= glob_matches.len(),
                operands@ == cli.paths@ + glob_matches@.subrange(0, i as int),
            decreases glob_matches.len() - i,
        {
            operands.push(glob_matches[i].clone());
            i += 1;
        }
        assert(glob_matches@.subrange(0, glob_matches.len() as int) =~= glob_matches@);
        if cli.paths.len() == 0 && cli.glob.len() == 0 {
            operands.push(String::from_str("."));
            proof {
                assert(glob_matches@.len() == 0);
            }
        }
        proof {
            rc.operands = operands@;
            assert(gathered(*cli, glob_matches@, operands@));
        }
        let (resolve_result, resolution) = resolve_operands_recorded(operands.as_slice(), self.fs);
        proof {
            rc.resolution = resolution@;
            rc.resolve_result = resolve_result;
        }
        let resolved = match resolve_result {
            Ok(v) => v,
            Err(e) => {
                return (Err(e), Ghost(rc));
            },
        };
        let (cwd_answer, cwd_rec) = ask_cwd(self.fs);
        proof {
            rc.cwd_answer = cwd_rec@;
        }
        let cwd = match cwd_answer {
            Ok(c) => c,
            Err(e) => {
                return (Err(e), Ghost(rc));
            },
        };
        let (home, home_rec) = ask_home(self.fs);
        let (git_root, root_rec) = ask_root(self.git_detector, cwd.as_str());
        let ghost cwd_v = cwd@;
        proof {
            rc.home = home_rec@;
            rc.git_root = root_rec@;
        }
        let ctx = RenderContext { cwd, home, git_root: copy_opt(&git_root), fs: self.fs };
        match anchor {
            Anchor::Vcs => {
                let (r, v) = self.render_vcs(&resolved, &ctx, cli, &git_root);
                proof {
                    rc.vcs = v@;
                }
                match r {
                    Ok((lines, notes)) => {
                        let joined = join_with_newlines(&lines);
                        (Ok((joined, notes, Ghost(strings_view(lines@)))), Ghost(rc))
                    },
                    Err(e) => (Err(e), Ghost(rc)),
                }
            },
            _ => {
                let mut rendered: Vec<String> = Vec::new();
                let ghost mut answers: Seq<Answers> = Seq::empty();
                let ghost rc0 = rc;
                let mut j: usize = 0;
                while j < resolved.len()
                    invariant
                        j <= resolved.len(),
                        rendered.len() == j,
                        answers.len() == j,
                        forall|q: int|
                            0 <= q < j ==> answers_fit(
                                *anchor,
                                resolved@[q]@,
                                cwd_v,
                                git_root,
                                #[trigger] answers[q],
                            ),
                        forall|q: int|
                            0 <= q < j ==> rendered_spec(
                                *anchor,
                                resolved@[q]@,
                                cwd_v,
                                home,
                                git_root,
                                #[trigger] answers[q],
                            ) == Some(rendered@[q]@),
                    decreases resolved.len() - j,
                {
                    let (r, ans) = render_recorded(anchor, resolved[j].as_str(), &ctx);
                    proof {
                        assert(answers.push(ans@)[j as int] == ans@);
                        answers = answers.push(ans@);
                    }
                    match r {
                        Ok(s) => {
                            rendered.push(s);
                        },
                        Err(e) => {
                            let ghost failed_rc = RunRecord {
                                anchor: rc0.anchor,
                                globs: rc0.globs,
                                glob_result: rc0.glob_result,
                                operands: rc0.operands,
                                resolution: rc0.resolution,
                                resolve_result: rc0.resolve_result,
                                cwd_answer: rc0.cwd_answer,
                                home: rc0.home,
                                git_root: rc0.git_root,
                                vcs: rc0.vcs,
                                answers,
                            };
                            assert(answers.last() == ans@);
                            return (Err(e), Ghost(failed_rc));
                        },
                    }
                    j += 1;
                }
                proof {
                    rc.answers = answers;
                    assert forall|q: int| 0 <= q < rendered.len() implies rendered_spec(
                        *anchor,
                        resolved@[q]@,
                        cwd_v,
                        home,
                        git_root,
                        answers[q],
                    ) == Some(#[trigger] strings_view(rendered@)[q]) by {}
                }
                let joined = join_with_newlines(&rendered);
                (Ok((joined, Vec::new(), Ghost(strings_view(rendered@)))), Ghost(rc))
            },
        }
    }

    /// Render under the VCS anchor: ask the provider for the metadata of
    /// the repository at `git_root` and the chosen remote, render each path
    /// as a permalink, and collect the diagnostic lines (local-state
    /// warning, then, with `--vcs-verify`, one check of the ref on the
    /// remote, whatever the number of paths). Returns the URLs and the
    /// lines, or the first error, with the record of the calls made
    /// ([`vcs_fits`]).
    #[verifier::loop_isolation(false)]
    fn render_vcs(
        &self,
        resolved: &Vec<String>,
        ctx: &RenderContext<'_, F>,
        cli: &Cli,
        git_root: &Option<String>,
    ) -> (res: (Result<(Vec<String>, Vec<String>), YankError>, Ghost<Option<VcsRecord>>))
        requires
            ctx.git_root == *git_root,
        ensures
            vcs_fits(
                *cli,
                resolved@,
                ctx.cwd@,
                *git_root,
                res.1@,
                match res.0 {
                    Ok(p) => Ok(strings_view(p.0@)),
                    Err(e) => Err(e),
                },
            ),
            res.0 matches Ok(p) ==> (res.1@ matches Some(v) && v.asked.answer() matches Ok(info)
                && vcs_notes_spec(info, *cli, outcome_of(v)) == strings_view(p.1@)),
    {
        let root = match git_root {
            Some(r) => r,
            None => {
                return (Err(YankError::Vcs(String::from_str("not in a repository"))), Ghost(None));
            },
        };
        let remote = match &cli.vcs_remote {
            Some(r) => r.clone(),
            None => String::from_str("origin"),
        };
        assert(remote@ == remote_choice(*cli));
        let (answer, asked) = ask_info(self.vcs_provider, root.as_str(), remote.as_str());
        let ghost mut v = VcsRecord { asked: asked@, attempted: 0, verify: None };
        let info = match answer {
            Ok(i) => i,
            Err(e) => {
                return (Err(e), Ghost(Some(v)));
            },
        };
        let ghost info_v = info;
        let mut notes: Vec<String> = Vec::new();
        if let Some(w) = build_vcs_warning(&info, remote.as_str()) {
            notes.push(w);
        }
        assert(strings_view(notes@) =~= opt_lines(vcs_warning_spec(info_v, remote_choice(*cli))));
        let git_ref = verify_ref(&info, &cli.vcs_default_branch, cli.vcs_branch_fallback);
        let renderer = VcsRenderer::new(
            info,
            copy_opt(&cli.vcs_default_branch),
            cli.vcs_branch_fallback,
        );
        let mut rendered: Vec<String> = Vec::new();
        let mut i: usize = 0;
        while i < resolved.len()
            invariant
                i <= resolved.len(),
                rendered.len() == i,
                v.attempted == i,
                v.asked.answer() == Ok::<VcsInfo, YankError>(info_v),
                v.asked.root() == root@,
                v.asked.remote() == remote@,
                v.verify is None,
                renderer.info_spec() == info_v,
                renderer.default_branch_spec() == cli.vcs_default_branch,
                renderer.branch_fallback_spec() == cli.vcs_branch_fallback,
                forall|j: int|
                    0 <= j < i ==> vcs_render_spec(
                        info_v,
                        cli.vcs_default_branch,
                        cli.vcs_branch_fallback,
                        #[trigger] resolved@[j]@,
                        ctx.cwd@,
                        ctx.git_root,
                    ) == Ok::<Seq<char>, Seq<char>>(rendered@[j]@),
            decreases resolved.len() - i,
        {
            let r = renderer.render(resolved[i].as_str(), ctx);
            proof {
                v.attempted = v.attempted + 1;
            }
            match r {
                Ok(u) => rendered.push(u),
                Err(e) => {
                    return (Err(e), Ghost(Some(v)));
                },
            }
            i += 1;
        }
        if cli.vcs_verify {
            let (outcome, checked) = ask_verify(
                self.verifier,
                root.as_str(),
                remote.as_str(),
                git_ref.as_str(),
            );
            proof {
                v.verify = Some(checked@);
            }
            let ghost before = strings_view(notes@);
            if let Some(n) = verify_note(git_ref.as_str(), remote.as_str(), &outcome) {
                notes.push(n);
            }
            assert(strings_view(notes@) =~= before + opt_lines(
                verify_note_spec(git_ref@, remote@, outcome),
            ));
        }
        assert(vcs_notes_spec(info_v, *cli, outcome_of(v)) =~= strings_view(notes@));
        proof {
            assert forall|q: int| 0 <= q < rendered.len() implies vcs_render_spec(
                info_v,
                cli.vcs_default_branch,
                cli.vcs_branch_fallback,
                resolved@[q]@,
                ctx.cwd@,
                *git_root,
            ) == Ok::<Seq<char>, Seq<char>>(#[trigger] strings_view(rendered@)[q]) by {}
        }
        (Ok((rendered, notes)), Ghost(Some(v)))
    }

    /// Emit `out`: copy and/or write it as the options and the clipboard's
    /// answers say, recording each call with its answer.
    fn emit(&mut self, no_copy: bool, print: bool, out: &String) -> (r: Result<(), YankError>)
        requires
            old(self).trace().len() == 0,
        ensures
            r is Ok ==> exists|available: bool, copy: CopyResult|
                !(copy is Failed) && final(self).trace() == #[trigger] emission(
                    no_copy,
                    print,
                    out@,
                    available,
                    copy,
                ),
            r is Err ==> exists|available: bool, copy: CopyResult, k: int|
                0 <= k < emission(no_copy, print, out@, available, copy).len() && !(emission(
                    no_copy,
                    print,
                    out@,
                    available,
                    copy,
                )[k] is Asked) && final(self).trace() == #[trigger] emission(
                    no_copy,
                    print,
                    out@,
                    available,
                    copy,
                ).subrange(0, k).push(
                    failed(emission(no_copy, print, out@, available, copy)[k]),
                ),
            final(self).notes == old(self).notes,
            final(self).record == old(self).record,
            final(self).chosen == old(self).chosen,
    {
        let mut wrote_to_sink = false;
        let ghost mut available = true;
        let ghost mut copy = CopyResult::Copied;
        if no_copy {
            if print {
                let w = self.sink.write_line(out.as_str());
                proof {
                    self.trace@ = self.trace@.push(Effect::Write(out@, w is Ok));
                }
                if let Err(e) = w {
                    assert(self.trace@ =~= emission(no_copy, print, out@, available, copy).subrange(
                        0,
                        0,
                    ).push(failed(emission(no_copy, print, out@, available, copy)[0])));
                    return Err(e);
                }
                wrote_to_sink = true;
            }
        } else {
            let a = self.clipboard.is_available();
            proof {
                available = a;
                self.trace@ = self.trace@.push(Effect::Asked(a));
            }
            if !a {
                let w = self.sink.write_line(out.as_str());
                proof {
                    self.trace@ = self.trace@.push(Effect::Write(out@, w is Ok));
                }
                if let Err(e) = w {
                    assert(self.trace@ =~= emission(no_copy, print, out@, available, copy).subrange(
                        0,
                        1,
                    ).push(failed(emission(no_copy, print, out@, available, copy)[1])));
                    return Err(e);
                }
                wrote_to_sink = true;
            } else {
                let c = self.clipboard.set_text(out.as_str());
                match c {
                    Ok(()) => {
                        proof {
                            self.trace@ = self.trace@.push(Effect::Copy(out@, CopyResult::Copied));
                        }
                    },
                    Err(YankError::ClipboardUnavailable(_)) => {
                        proof {
                            copy = CopyResult::Unavailable;
                            self.trace@ = self.trace@.push(
                                Effect::Copy(out@, CopyResult::Unavailable),
                            );
                        }
                        let w = self.sink.write_line(out.as_str());
                        proof {
                            self.trace@ = self.trace@.push(Effect::Write(out@, w is Ok));
                        }
                        if let Err(e) = w {
                            assert(self.trace@ =~= emission(
                                no_copy,
                                print,
                                out@,
                                available,
                                copy,
                            ).subrange(0, 2).push(
                                failed(emission(no_copy, print, out@, available, copy)[2]),
                            ));
                            return Err(e);
                        }
                        wrote_to_sink = true;
                    },
                    Err(other) => {
                        proof {
                            copy = CopyResult::Failed;
                            self.trace@ = self.trace@.push(Effect::Copy(out@, CopyResult::Failed));
                        }
                        assert(self.trace@ =~= emission(no_copy, print, out@, available, copy).subrange(
                            0,
                            1,
                        ).push(failed(emission(no_copy, print, out@, available, copy)[1])));
                        return Err(other);
                    },
                }
            }
        }
        if print && !wrote_to_sink {
            let w = self.sink.write_line(out.as_str());
            proof {
                self.trace@ = self.trace@.push(Effect::Write(out@, w is Ok));
            }
            if let Err(e) = w {
                assert(self.trace@ =~= emission(no_copy, print, out@, available, copy).subrange(
                    0,
                    2,
                ).push(failed(emission(no_copy, print, out@, available, copy)[2])));
                return Err(e);
            }
        }
        assert(self.trace@ =~= emission(no_copy, print, out@, available, copy));
        Ok(())
    }
}

// ---------------------------------------------------------------------------
// Diagnostics for the VCS anchor
// ---------------------------------------------------------------------------

/// The first seven bytes of a ref (all of it when shorter). Where byte
/// seven falls inside a character the whole ref is kept.
pub open spec fn short_ref(s: Seq<char>) -> Seq<char> {
    match byte_prefix(s, 7) {
        Some(p) => p,
        None => s,
    }
}

/// [`short_ref`], computed.
fn short_ref_exec(s: &str) -> (r: String)
    ensures
        r@ == short_ref(s@),
{
    let c = chars_of(s);
    match byte_prefix_exec(c.as_slice(), 7) {
        Some(p) => string_of(p.as_slice()),
        None => String::from_str(s),
    }
}

/// Why the local state may make a permalink point at nothing: a detached
/// HEAD, a branch without upstream, commits that exist only locally (in that
/// order, each when it applies).
pub open spec fn warning_reasons(info: VcsInfo) -> Seq<Seq<char>> {
    (if info.detached {
        seq!["detached HEAD"@]
    } else {
        Seq::empty()
    }) + (if !info.has_upstream && info.branch is Some {
        seq!["no upstream"@]
    } else {
        Seq::empty()
    }) + (if info.ahead_of_remote {
        seq!["local-only commits"@]
    } else {
        Seq::empty()
    })
}

/// The warning printed for suspicious local state, if any applies.
pub open spec fn vcs_warning_spec(info: VcsInfo, remote: Seq<char>) -> Option<Seq<char>> {
    let reasons = warning_reasons(info);
    if reasons.len() == 0 {
        None
    } else {
        let sha = match info.sha {
            Some(s) => short_ref(s@),
            None => "unknown"@,
        };
        Some(
            "yank-path: warning: commit "@ + sha + " may not exist on remote '"@ + remote + "' ("@
                + join_sep(reasons, ", "@) + ")"@,
        )
    }
}

/// The warning for local state that may make the generated URLs dangle:
/// detached HEAD, no upstream for the current branch, or local commits not
/// pushed. `None` when none of these holds.
pub fn build_vcs_warning(info: &VcsInfo, remote: &str) -> (r: Option<String>)
    ensures
        opt_view(r) == vcs_warning_spec(*info, remote@),
{
    let mut reasons: Vec<String> = Vec::new();
    if info.detached {
        reasons.push(String::from_str("detached HEAD"));
    }
    if !info.has_upstream && info.branch.is_some() {
        reasons.push(String::from_str("no upstream"));
    }
    if info.ahead_of_remote {
        reasons.push(String::from_str("local-only commits"));
    }
    assert(strings_view(reasons@) =~= warning_reasons(*info));
    if reasons.len() == 0 {
        return None;
    }
    let sha = match &info.sha {
        Some(s) => short_ref_exec(s.as_str()),
        None => String::from_str("unknown"),
    };
    let joined = join_strings(&reasons, ", ");
    let mut out = String::from_str("yank-path: warning: commit ");
    out.append(sha.as_str());
    out.append(" may not exist on remote '");
    out.append(remote);
    out.append("' (");
    out.append(joined.as_str());
    out.append(")");
    Some(out)
}

/// The ref checked against the remote: the one the URLs use, or `main`
/// when there is none.
pub open spec fn verify_ref_spec(info: VcsInfo, default_branch: Option<String>, fallback: bool) -> Seq<
    char,
> {
    match info.sha {
        Some(s) => s@,
        None => if fallback {
            match default_branch {
                Some(d) => d@,
                None => match info.branch {
                    Some(b) => b@,
                    None => "main"@,
                },
            }
        } else {
            "main"@
        },
    }
}

/// [`verify_ref_spec`], computed.
fn verify_ref(info: &VcsInfo, default_branch: &Option<String>, fallback: bool) -> (r: String)
    ensures
        r@ == verify_ref_spec(*info, *default_branch, fallback),
{
    match &info.sha {
        Some(s) => s.clone(),
        None => if fallback {
            match default_branch {
                Some(d) => d.clone(),
                None => match &info.branch {
                    Some(b) => b.clone(),
                    None => String::from_str("main"),
                },
            }
        } else {
            String::from_str("main")
        },
    }
}

/// The line printed for the outcome of a remote check: nothing when the
/// ref is there; a warning naming the ref (shortened when it is a 40-byte
/// commit id) when it is not; a note with the reason when no answer came.
pub open spec fn verify_note_spec(git_ref: Seq<char>, remote: Seq<char>, outcome: VerifyOutcome) -> Option<
    Seq<char>,
> {
    match outcome {
        VerifyOutcome::Present => None,
        VerifyOutcome::Absent => {
            let shown = if utf8_len(git_ref) == 40 {
                short_ref(git_ref)
            } else {
                git_ref
            };
            Some("yank-path: warning: "@ + shown + " not found on remote '"@ + remote + "'"@)
        },
        VerifyOutcome::Unverified(reason) => Some(
            "yank-path: note: could not verify against remote '"@ + remote + "' ("@ + reason@
                + ")"@,
        ),
    }
}

/// The diagnostic line for the outcome of checking `git_ref` on `remote`.
pub fn verify_note(git_ref: &str, remote: &str, outcome: &VerifyOutcome) -> (r: Option<String>)
    ensures
        opt_view(r) == verify_note_spec(git_ref@, remote@, *outcome),
{
    match outcome {
        VerifyOutcome::Present => None,
        VerifyOutcome::Absent => {
            let c = chars_of(git_ref);
            let shown = if utf8_len_is(c.as_slice(), 40) {
                short_ref_exec(git_ref)
            } else {
                String::from_str(git_ref)
            };
            let mut out = String::from_str("yank-path: warning: ");
            out.append(shown.as_str());
            out.append(" not found on remote '");
            out.append(remote);
            out.append("'");
            Some(out)
        },
        VerifyOutcome::Unverified(reason) => {
            let mut out = String::from_str("yank-path: note: could not verify against remote '");
            out.append(remote);
            out.append("' (");
            out.append(reason.as_str());
            out.append(")");
            Some(out)
        },
    }
}

// ---------------------------------------------------------------------------
// Laws of emission
// ---------------------------------------------------------------------------

/// Whether `t` is what a run on `out` leaves, finished or cut short by a
/// collaborator.
pub open spec fn is_some_run(no_copy: bool, print: bool, out: Seq<char>, t: Seq<Effect>) -> bool {
    is_run_trace(no_copy, print, out, t) || is_failed_run(no_copy, print, out, t)
}

/// Every call of a run, finished or cut short, is one of those of a
/// successful run with the same answers, the last possibly failing.
proof fn lemma_calls_of_run(no_copy: bool, print: bool, out: Seq<char>, t: Seq<Effect>) -> (r: (
    bool,
    CopyResult,
))
    requires
        is_some_run(no_copy, print, out, t),
    ensures
        t.len() <= run_effects(no_copy, print, out, r.0, r.1).len(),
        forall|i: int|
            0 <= i < t.len() ==> #[trigger] t[i] == run_effects(no_copy, print, out, r.0, r.1)[i]
                || (i == t.len() - 1 && t[i] == failed(run_effects(no_copy, print, out, r.0, r.1)[i])),
{
    if is_run_trace(no_copy, print, out, t) {
        let (a, c) = choose|a: bool, c: CopyResult|
            !(c is Failed) && #[trigger] run_effects(no_copy, print, out, a, c) == t;
        (a, c)
    } else {
        let (a, c, k) = choose|a: bool, c: CopyResult, k: int|
            #![trigger run_effects(no_copy, print, out, a, c).subrange(0, k)]
            0 <= k < run_effects(no_copy, print, out, a, c).len() && !(run_effects(
                no_copy,
                print,
                out,
                a,
                c,
            )[k] is Asked) && t == run_effects(no_copy, print, out, a, c).subrange(0, k).push(
                failed(run_effects(no_copy, print, out, a, c)[k]),
            );
        (a, c)
    }
}

/// Under `--no-copy` the clipboard is never asked nor written: no run,
/// finished or cut short, holds a call on it.
pub proof fn lemma_no_copy_never_copies(print: bool, out: Seq<char>, t: Seq<Effect>)
    requires
        is_some_run(true, print, out, t),
    ensures
        forall|i: int| 0 <= i < t.len() ==> !(#[trigger] t[i] is Copy) && !(t[i] is Asked),
{
    let (a, c) = lemma_calls_of_run(true, print, out, t);
    let full = run_effects(true, print, out, a, c);
    assert forall|i: int| 0 <= i < t.len() implies !(#[trigger] t[i] is Copy) && !(t[i] is Asked) by {
        assert(t[i] == full[i] || t[i] == failed(full[i]));
    }
}

/// The clipboard and the sink only ever receive the whole output text: in
/// any run, finished or cut short, every copy and every written line is
/// that text ([`App::run`] states that the text has one rendered line per
/// operand, so no partial result is ever emitted).
pub proof fn lemma_effects_carry_whole_output(
    no_copy: bool,
    print: bool,
    out: Seq<char>,
    t: Seq<Effect>,
)
    requires
        is_some_run(no_copy, print, out, t),
    ensures
        forall|i: int|
            0 <= i < t.len() ==> (#[trigger] t[i] matches Effect::Copy(o, _) ==> o == out) && (
            t[i] matches Effect::Write(o, _) ==> o == out),
{
    let (a, c) = lemma_calls_of_run(no_copy, print, out, t);
    let full = run_effects(no_copy, print, out, a, c);
    assert forall|i: int| 0 <= i < t.len() implies (#[trigger] t[i] matches Effect::Copy(o, _)
        ==> o == out) && (t[i] matches Effect::Write(o, _) ==> o == out) by {
        assert(t[i] == full[i] || t[i] == failed(full[i]));
    }
}

/// A finished run writes the output text to the sink at most once, and
/// exactly once with `--print`; the sink is flushed once, last.
pub proof fn lemma_output_written_once(no_copy: bool, print: bool, out: Seq<char>, t: Seq<Effect>)
    requires
        is_run_trace(no_copy, print, out, t),
    ensures
        forall|i: int, j: int|
            0 <= i < j < t.len() && #[trigger] t[i] is Write ==> !(#[trigger] t[j] is Write),
        print ==> exists|i: int| 0 <= i < t.len() && #[trigger] t[i] == Effect::Write(out, true),
        t.len() > 0 && t.last() == Effect::Flush(true),
        forall|i: int| 0 <= i < t.len() - 1 ==> !(#[trigger] t[i] is Flush),
{
    let (a, c) = choose|a: bool, c: CopyResult|
        !(c is Failed) && #[trigger] run_effects(no_copy, print, out, a, c) == t;
    if print {
        if no_copy {
            assert(t[0] == Effect::Write(out, true));
        } else if !a {
            assert(t[1] == Effect::Write(out, true));
        } else {
            assert(t[2] == Effect::Write(out, true));
        }
    }
}

/// Unless `--no-copy` is given without `--print`, a finished run delivers
/// the output text: the clipboard took it, or the sink got it; with
/// `--no-copy` and no `--print` it only flushes.
pub proof fn lemma_output_delivered(
    no_copy: bool,
    print: bool,
    out: Seq<char>,
    available: bool,
    copy: CopyResult,
)
    requires
        !(copy is Failed),
    ensures
        !(no_copy && !print) ==> exists|i: int|
            0 <= i < run_effects(no_copy, print, out, available, copy).len() && (#[trigger] run_effects(
                no_copy,
                print,
                out,
                available,
                copy,
            )[i] == Effect::Write(out, true) || run_effects(no_copy, print, out, available, copy)[i]
                == Effect::Copy(out, CopyResult::Copied)),
        no_copy && !print ==> run_effects(no_copy, print, out, available, copy) == seq![
            Effect::Flush(true),
        ],
{
    let t = run_effects(no_copy, print, out, available, copy);
    if !(no_copy && !print) {
        if no_copy {
            assert(t[0] == Effect::Write(out, true));
        } else if !available {
            assert(t[1] == Effect::Write(out, true));
        } else {
            assert(t[1] == Effect::Copy(out, CopyResult::Copied) || t[2] == Effect::Write(out, true));
        }
    } else {
        assert(t =~= seq![Effect::Flush(true)]);
    }
}

/// With an unavailable clipboard the text goes to the sink instead, once,
/// whether or not `--print` is given, and no copy is attempted.
pub proof fn lemma_headless_fallback(print: bool, copy: CopyResult, out: Seq<char>)
    ensures
        run_effects(false, print, out, false, copy) == seq![
            Effect::Asked(false),
            Effect::Write(out, true),
            Effect::Flush(true),
        ],
{
    assert(run_effects(false, print, out, false, copy) =~= seq![
        Effect::Asked(false),
        Effect::Write(out, true),
        Effect::Flush(true),
    ]);
}

} // verus!
