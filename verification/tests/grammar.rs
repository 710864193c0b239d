//! Tests of the command grammar and its parser.

use gerrit_rust::grammar::{
    compose, help_lines, parse, parse_with, Grammar, SubGrammar, Subcommand, UsageError,
};

fn args(tokens: &[&str]) -> Vec<String> {
    tokens.iter().map(|t| t.to_string()).collect()
}

#[test]
fn no_arguments_names_no_subcommand() {
    let p = parse(&args(&[])).unwrap();
    assert_eq!(p.dry_run, false);
    assert!(p.subcommand.is_none());
    assert!(p.sub_args.is_empty());
}

#[test]
fn dry_run_alone_is_accepted() {
    let p = parse(&args(&["--dry-run"])).unwrap();
    assert_eq!(p.dry_run, true);
    assert!(p.subcommand.is_none());
}

#[test]
fn repeated_dry_run_is_accepted() {
    let p = parse(&args(&["--dry-run", "--dry-run"])).unwrap();
    assert_eq!(p.dry_run, true);
    assert!(p.subcommand.is_none());
}

#[test]
fn unknown_top_level_flag_is_a_usage_error() {
    match parse(&args(&["--frobnicate"])) {
        Err(UsageError::UnknownFlag { token }) => assert_eq!(token, "--frobnicate"),
        _ => panic!("expected an unknown-flag usage error"),
    }
}

#[test]
fn unknown_subcommand_is_a_usage_error() {
    match parse(&args(&["frobnicate"])) {
        Err(UsageError::UnknownSubcommand { token }) => assert_eq!(token, "frobnicate"),
        _ => panic!("expected an unknown-subcommand usage error"),
    }
}

#[test]
fn topic_list_matches_the_topic_subcommand() {
    let p = parse(&args(&["topic", "list"])).unwrap();
    assert_eq!(p.dry_run, false);
    assert_eq!(p.subcommand, Some(Subcommand::Topic));
    assert_eq!(p.sub_args, args(&["list"]));
}

#[test]
fn changes_with_bad_flag_is_a_usage_error() {
    match parse(&args(&["changes", "--bad-flag"])) {
        Err(UsageError::UnknownFlag { token }) => assert_eq!(token, "--bad-flag"),
        _ => panic!("expected an unknown-flag usage error"),
    }
}

#[test]
fn dry_run_before_subcommand_reaches_it() {
    let p = parse(&args(&["--dry-run", "gerritapi", "projects"])).unwrap();
    assert_eq!(p.dry_run, true);
    assert_eq!(p.subcommand, Some(Subcommand::GerritApi));
    assert_eq!(p.sub_args, args(&["projects"]));
}

#[test]
fn all_four_subcommands_are_registered() {
    for (name, sub) in [
        ("topic", Subcommand::Topic),
        ("changes", Subcommand::Changes),
        ("config", Subcommand::Config),
        ("gerritapi", Subcommand::GerritApi),
    ] {
        let p = parse(&args(&[name])).unwrap();
        assert_eq!(p.subcommand, Some(sub));
    }
}

#[test]
fn declared_subcommand_flag_is_accepted() {
    let g = Grammar {
        dry_run_flag: "--dry-run".to_string(),
        subs: vec![SubGrammar { name: "sync".to_string(), flags: args(&["--force"]) }],
    };
    let p = parse_with(&g, &args(&["sync", "--force", "x"])).unwrap();
    assert_eq!(p.sub, Some(0));
    assert_eq!(p.sub_args, args(&["--force", "x"]));
}

#[test]
fn undeclared_subcommand_flag_is_rejected() {
    let g = Grammar {
        dry_run_flag: "--dry-run".to_string(),
        subs: vec![SubGrammar { name: "sync".to_string(), flags: args(&["--force"]) }],
    };
    match parse_with(&g, &args(&["sync", "--hard"])) {
        Err(UsageError::UnknownFlag { token }) => assert_eq!(token, "--hard"),
        _ => panic!("expected an unknown-flag usage error"),
    }
}

#[test]
fn help_lists_usage_and_every_subcommand() {
    let g = compose();
    let lines = help_lines(&g);
    assert_eq!(lines.len(), 5);
    assert_eq!(lines[0], "usage: gerrit-rust [--dry-run] [subcommand]");
    assert_eq!(lines[1], "topic");
    assert_eq!(lines[2], "changes");
    assert_eq!(lines[3], "config");
    assert_eq!(lines[4], "gerritapi");
}

#[test]
fn composition_is_deterministic() {
    let a = compose();
    let b = compose();
    assert_eq!(a.dry_run_flag, b.dry_run_flag);
    assert_eq!(a.subs.len(), b.subs.len());
    for (x, y) in a.subs.iter().zip(b.subs.iter()) {
        assert_eq!(x.name, y.name);
        assert_eq!(x.flags, y.flags);
    }
}
