# yank_path

A command-line tool that renders the textual form of paths under a chosen
anchor (home `~/...`, current-directory name, parent and current directory
names, repository-relative, absolute, relative to a base directory, or a
VCS permalink) and copies the result to the clipboard. The library is
written in Verus: its rendering, path normalisation, glob checks, `.git`
file parsing and pipeline carry contracts that Verus proves.

## Layout

- `src/` — the verified library.
  - `path.rs`, `text.rs`: lexical path model (segments, `..` collapse,
    joining) and character-sequence helpers.
  - `anchor/`: one renderer per anchor, each with its specification;
    `anchor/vcs.rs` parses remote URLs and builds host-specific permalinks.
  - `resolve.rs`, `glob.rs`: strict operand resolution and single-level glob
    expansion.
  - `vcs.rs`: `.git/config`, `.git/HEAD`, ref files, `packed-refs` and
    `git ls-remote` output, interpreted from their texts.
  - `gitroot.rs`: walk-up detection of the repository root.
  - `app.rs`: the pipeline, with a ghost trace of the effects on the
    clipboard and the output sink, and the laws of emission.
  - `cli.rs`, `clipboard.rs`, `error.rs`, `fs.rs`: options, output
    collaborators, errors and exit codes, filesystem interface.
- `tests/` — executable tests against the library.
- `app/` — the binary: argument parsing, the operating-system filesystem,
  `.git` file reading, the `git ls-remote` process, the `arboard` clipboard
  and stdout.

## The disk in the contracts

The filesystem, the `glob` crate, the repository-root detector and the VCS
collaborators answer according to the state of the machine, so no contract
can promise what they say. The functions that ask them return, beside their
result, a ghost record of each question and its answer (`Look`, `Answers`,
`PatternAnswers`/`GlobTrace`, `ResolveTrace`, `VcsRecord`, the walk of
`find_root_recorded`), and their contracts give the result exactly in terms
of that record. `App::run` keeps the record of the whole pipeline with its
outcome (`pipeline_fits`): the rendered lines, or the error of the first
stage that failed.
