use clap::builder::{PossibleValue, PossibleValuesParser};
use clap::{Arg, ArgAction, ArgGroup, ArgMatches, Command};

use yank_path::cli::FromAnchor;
use yank_path::{Anchor, Cli, YankError};

/// The command-line surface of the tool, built with clap's builder.
fn command() -> Command {
    Command::new("yank-path")
        .arg(Arg::new("paths").value_name("PATH").num_args(0..).action(ArgAction::Append))
        .arg(
            Arg::new("from")
                .long("from")
                .short('f')
                .value_name("ANCHOR")
                .value_parser(PossibleValuesParser::new([
                    PossibleValue::new("home"),
                    PossibleValue::new("base").alias("basename"),
                    PossibleValue::new("parent").alias("dirname"),
                    PossibleValue::new("git"),
                ])),
        )
        .arg(Arg::new("relative_to").long("relative-to").short('r').value_name("PATH"))
        .arg(Arg::new("absolute").long("absolute").short('a').action(ArgAction::SetTrue))
        .arg(
            Arg::new("glob")
                .long("glob")
                .short('g')
                .value_name("PATTERN")
                .action(ArgAction::Append),
        )
        .arg(Arg::new("print").long("print").short('p').action(ArgAction::SetTrue))
        .arg(Arg::new("no_copy").long("no-copy").short('n').action(ArgAction::SetTrue))
        .arg(
            Arg::new("vcs")
                .long("vcs")
                .short('v')
                .visible_alias("VCS")
                .action(ArgAction::SetTrue),
        )
        .arg(
            Arg::new("vcs_remote")
                .long("vcs-remote")
                .short('R')
                .value_name("REMOTE")
                .requires("vcs"),
        )
        .arg(
            Arg::new("vcs_default_branch")
                .long("vcs-default-branch")
                .short('d')
                .value_name("BRANCH")
                .requires("vcs"),
        )
        .arg(
            Arg::new("vcs_branch_fallback")
                .long("vcs-branch-fallback")
                .short('b')
                .action(ArgAction::SetTrue)
                .requires("vcs"),
        )
        .arg(
            Arg::new("vcs_verify")
                .long("vcs-verify")
                .short('x')
                .action(ArgAction::SetTrue)
                .requires("vcs"),
        )
        .group(
            ArgGroup::new("anchor")
                .args(["from", "absolute", "relative_to", "vcs"])
                .multiple(false)
                .required(false),
        )
}

fn strings(m: &ArgMatches, id: &str) -> Vec<String> {
    m.get_many::<String>(id).map(|v| v.cloned().collect()).unwrap_or_default()
}

fn to_cli(m: &ArgMatches) -> Cli {
    let from = m.get_one::<String>("from").map(|s| match s.as_str() {
        "home" => FromAnchor::Home,
        "base" | "basename" => FromAnchor::Base,
        "parent" | "dirname" => FromAnchor::Parent,
        _ => FromAnchor::Git,
    });
    Cli {
        paths: strings(m, "paths"),
        from,
        relative_to: m.get_one::<String>("relative_to").cloned(),
        absolute: m.get_flag("absolute"),
        glob: strings(m, "glob"),
        print: m.get_flag("print"),
        no_copy: m.get_flag("no_copy"),
        vcs: m.get_flag("vcs"),
        vcs_remote: m.get_one::<String>("vcs_remote").cloned(),
        vcs_default_branch: m.get_one::<String>("vcs_default_branch").cloned(),
        vcs_branch_fallback: m.get_flag("vcs_branch_fallback"),
        vcs_verify: m.get_flag("vcs_verify"),
    }
}

fn try_parse(args: &[&str]) -> Result<Cli, clap::Error> {
    let mut full = vec!["yank-path"];
    full.extend_from_slice(args);
    command().try_get_matches_from(full).map(|m| to_cli(&m))
}

fn parse(args: &[&str]) -> Cli {
    try_parse(args).expect("parse should succeed")
}

fn bare_cli() -> Cli {
    Cli {
        paths: vec![],
        from: None,
        relative_to: None,
        absolute: false,
        glob: vec![],
        print: false,
        no_copy: false,
        vcs: false,
        vcs_remote: None,
        vcs_default_branch: None,
        vcs_branch_fallback: false,
        vcs_verify: false,
    }
}

#[test]
fn parses_no_args_defaults_to_home_anchor_and_empty_paths() {
    let cli = parse(&[]);
    assert!(cli.paths.is_empty());
    assert_eq!(cli.anchor().unwrap(), Anchor::Home);
    assert!(!cli.print);
    assert!(!cli.no_copy);
    assert!(cli.glob.is_empty());
}

#[test]
fn parses_from_home() {
    let cli = parse(&["--from", "home"]);
    assert_eq!(cli.anchor().unwrap(), Anchor::Home);
}

#[test]
fn parses_from_base() {
    let cli = parse(&["--from", "base"]);
    assert_eq!(cli.anchor().unwrap(), Anchor::Base);
}

#[test]
fn parses_from_parent() {
    let cli = parse(&["--from", "parent"]);
    assert_eq!(cli.anchor().unwrap(), Anchor::Parent);
}

#[test]
fn parses_from_git() {
    let cli = parse(&["--from", "git"]);
    assert_eq!(cli.anchor().unwrap(), Anchor::Git);
}

#[test]
fn alias_basename_maps_to_base() {
    let cli = parse(&["--from", "basename"]);
    assert_eq!(cli.anchor().unwrap(), Anchor::Base);
}

#[test]
fn alias_dirname_maps_to_parent() {
    let cli = parse(&["--from", "dirname"]);
    assert_eq!(cli.anchor().unwrap(), Anchor::Parent);
}

#[test]
fn parses_absolute_flag() {
    let cli = parse(&["--absolute"]);
    assert_eq!(cli.anchor().unwrap(), Anchor::Absolute);
}

#[test]
fn parses_relative_to() {
    let cli = parse(&["--relative-to", "/tmp/base"]);
    assert_eq!(cli.anchor().unwrap(), Anchor::RelativeTo("/tmp/base".to_string()));
}

#[test]
fn parses_repeated_glob_and_positional_paths() {
    let cli = parse(&["--glob", "*.rs", "--glob", "*.md", "a.txt", "b.txt"]);
    assert_eq!(cli.glob, vec!["*.rs".to_string(), "*.md".to_string()]);
    assert_eq!(cli.paths, vec!["a.txt".to_string(), "b.txt".to_string()]);
}

#[test]
fn parses_print_and_no_copy_flags() {
    let cli = parse(&["--print", "--no-copy"]);
    assert!(cli.print);
    assert!(cli.no_copy);
}

#[test]
fn clap_rejects_conflicting_anchor_options() {
    let err = try_parse(&["--absolute", "--from", "home"]).unwrap_err();
    assert_eq!(err.kind(), clap::error::ErrorKind::ArgumentConflict, "got: {err}");
}

#[test]
fn anchor_helper_detects_conflict_when_bypassed() {
    let cli = Cli { from: Some(FromAnchor::Home), absolute: true, ..bare_cli() };
    match cli.anchor() {
        Err(YankError::ConflictingAnchors) => {}
        other => panic!("expected ConflictingAnchors, got {other:?}"),
    }
}

#[test]
fn anchor_helper_detects_three_way_conflict() {
    let cli = Cli {
        from: Some(FromAnchor::Git),
        relative_to: Some("/x".to_string()),
        absolute: true,
        ..bare_cli()
    };
    match cli.anchor() {
        Err(YankError::ConflictingAnchors) => {}
        other => panic!("expected ConflictingAnchors, got {other:?}"),
    }
}

#[test]
fn parses_vcs_flag_and_returns_vcs_anchor() {
    let cli = parse(&["--vcs"]);
    assert!(cli.vcs);
    assert_eq!(cli.anchor().unwrap(), Anchor::Vcs);
}

#[test]
fn parses_uppercase_vcs_alias() {
    let cli = parse(&["--VCS"]);
    assert!(cli.vcs);
    assert_eq!(cli.anchor().unwrap(), Anchor::Vcs);
}

#[test]
fn vcs_conflicts_with_absolute() {
    let err = try_parse(&["--vcs", "--absolute"]).unwrap_err();
    assert_eq!(err.kind(), clap::error::ErrorKind::ArgumentConflict, "got: {err}");
}

#[test]
fn vcs_remote_requires_vcs() {
    let err = try_parse(&["--vcs-remote", "origin"]).unwrap_err();
    assert!(matches!(err.kind(), clap::error::ErrorKind::MissingRequiredArgument), "got: {err}");
}

#[test]
fn vcs_default_branch_requires_vcs() {
    let err = try_parse(&["--vcs-default-branch", "main"]).unwrap_err();
    assert!(matches!(err.kind(), clap::error::ErrorKind::MissingRequiredArgument), "got: {err}");
}

#[test]
fn parses_vcs_with_remote_and_default_branch() {
    let cli = parse(&["--vcs", "--vcs-remote", "upstream", "--vcs-default-branch", "develop"]);
    assert!(cli.vcs);
    assert_eq!(cli.vcs_remote.as_deref(), Some("upstream"));
    assert_eq!(cli.vcs_default_branch.as_deref(), Some("develop"));
    assert_eq!(cli.anchor().unwrap(), Anchor::Vcs);
}

// ---------------------------------------------------------------------------
// Further cases
// ---------------------------------------------------------------------------

#[test]
fn vcs_with_another_anchor_is_a_conflict_when_bypassed() {
    let cli = Cli { vcs: true, relative_to: Some("/b".to_string()), ..bare_cli() };
    assert!(matches!(cli.anchor(), Err(YankError::ConflictingAnchors)));
}

#[test]
fn single_anchor_options_resolve_in_isolation() {
    assert_eq!(Cli { absolute: true, ..bare_cli() }.anchor().unwrap(), Anchor::Absolute);
    assert_eq!(Cli { vcs: true, ..bare_cli() }.anchor().unwrap(), Anchor::Vcs);
    assert_eq!(
        Cli { from: Some(FromAnchor::Parent), ..bare_cli() }.anchor().unwrap(),
        Anchor::Parent
    );
    assert_eq!(bare_cli().anchor().unwrap(), Anchor::Home);
}

#[test]
fn from_anchor_converts_to_anchor() {
    assert_eq!(Anchor::from(FromAnchor::Home), Anchor::Home);
    assert_eq!(Anchor::from(FromAnchor::Base), Anchor::Base);
    assert_eq!(Anchor::from(FromAnchor::Parent), Anchor::Parent);
    assert_eq!(Anchor::from(FromAnchor::Git), Anchor::Git);
}

#[test]
fn short_flags_are_accepted() {
    let cli = parse(&["-p", "-n", "-f", "git", "x"]);
    assert!(cli.print);
    assert!(cli.no_copy);
    assert_eq!(cli.anchor().unwrap(), Anchor::Git);
    assert_eq!(cli.paths, vec!["x".to_string()]);
    let v = parse(&["-v", "-x", "-b", "-R", "up", "-d", "trunk"]);
    assert!(v.vcs && v.vcs_verify && v.vcs_branch_fallback);
    assert_eq!(v.vcs_remote.as_deref(), Some("up"));
    assert_eq!(v.vcs_default_branch.as_deref(), Some("trunk"));
}
