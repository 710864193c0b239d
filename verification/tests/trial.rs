//! Tests of whole invocations: parse, discover, load, route, report.

use gerrit_rust::discover::{DirPath, FsFile};
use gerrit_rust::dispatch::{Failure, FailureKind};
use gerrit_rust::grammar::{Subcommand, UsageError};
use gerrit_rust::{run_trial, Trial, TrialOutcome, EXIT_FAILURE, EXIT_SUCCESS};

fn args(tokens: &[&str]) -> Vec<String> {
    tokens.iter().map(|t| t.to_string()).collect()
}

fn dir(parts: &[&str]) -> DirPath {
    DirPath { components: parts.iter().map(|p| p.to_string()).collect() }
}

fn valid_config_at(parts: &[&str]) -> Vec<FsFile> {
    vec![FsFile { dir: dir(parts), contents: "baseurl=http://review.example.com\n".to_string() }]
}

fn trial(tokens: &[&str], files: Vec<FsFile>, handler: Result<(), Failure>) -> Trial {
    run_trial(&args(tokens), &files, &dir(&["a", "b", "c"]), handler)
}

#[test]
fn no_subcommand_shows_help_and_succeeds() {
    let t = trial(&[], valid_config_at(&["a", "b"]), Ok(()));
    assert_eq!(t.exit_code, EXIT_SUCCESS);
    match t.outcome {
        TrialOutcome::HelpShown { lines } => {
            assert_eq!(lines.len(), 5);
            assert_eq!(lines[1], "topic");
        },
        _ => panic!("expected the help text"),
    }
}

#[test]
fn unknown_subcommand_fails_before_any_discovery() {
    // No configuration file exists anywhere: if discovery ran first,
    // the outcome would be a configuration failure, not a usage error.
    let t = trial(&["frobnicate"], Vec::new(), Ok(()));
    assert_eq!(t.exit_code, EXIT_FAILURE);
    match t.outcome {
        TrialOutcome::Usage { error: UsageError::UnknownSubcommand { token } } => {
            assert_eq!(token, "frobnicate");
        },
        _ => panic!("expected a usage error"),
    }
}

#[test]
fn bad_flag_with_valid_config_is_a_usage_error() {
    let t = trial(&["changes", "--bad-flag"], valid_config_at(&["a", "b"]), Ok(()));
    assert_eq!(t.exit_code, EXIT_FAILURE);
    match t.outcome {
        TrialOutcome::Usage { error: UsageError::UnknownFlag { token } } => {
            assert_eq!(token, "--bad-flag");
        },
        _ => panic!("expected a usage error, not a handler run"),
    }
}

#[test]
fn topic_list_runs_the_topic_handler_without_dry_run() {
    let t = trial(&["topic", "list"], valid_config_at(&["a", "b"]), Ok(()));
    assert_eq!(t.exit_code, EXIT_SUCCESS);
    match t.outcome {
        TrialOutcome::Handled { call, report } => {
            assert_eq!(call.sub, Subcommand::Topic);
            assert_eq!(call.dry_run, false);
            assert_eq!(call.args, args(&["list"]));
            assert!(report.error_line.is_none());
            assert!(report.cause_line.is_none());
        },
        _ => panic!("expected the topic handler to run"),
    }
}

#[test]
fn missing_config_terminates_before_any_handler() {
    let t = trial(&["topic", "list"], Vec::new(), Ok(()));
    assert_eq!(t.exit_code, EXIT_FAILURE);
    match t.outcome {
        TrialOutcome::ConfigFailure { failure } => {
            assert_eq!(failure.kind, FailureKind::ConfigLoad);
            assert_eq!(failure.message, "problem with configfile");
        },
        _ => panic!("expected a configuration failure"),
    }
}

#[test]
fn invalid_config_terminates_before_any_handler() {
    let files = vec![FsFile { dir: dir(&["a", "b"]), contents: "username=jdoe\n".to_string() }];
    let t = trial(&["changes"], files, Ok(()));
    assert_eq!(t.exit_code, EXIT_FAILURE);
    match t.outcome {
        TrialOutcome::ConfigFailure { failure } => {
            assert_eq!(failure.kind, FailureKind::ConfigInvalid);
            assert_eq!(failure.message, "problem with configfile");
        },
        _ => panic!("expected a configuration failure"),
    }
}

#[test]
fn every_handler_observes_the_dry_run_flag() {
    for name in ["topic", "changes", "config", "gerritapi"] {
        let t = trial(&["--dry-run", name], valid_config_at(&["a", "b"]), Ok(()));
        match t.outcome {
            TrialOutcome::Handled { call, .. } => assert_eq!(call.dry_run, true),
            _ => panic!("expected a handler run for {name}"),
        }
    }
}

#[test]
fn handlers_observe_dry_run_unset_by_default() {
    for name in ["topic", "changes", "config", "gerritapi"] {
        let t = trial(&[name], valid_config_at(&["a", "b"]), Ok(()));
        match t.outcome {
            TrialOutcome::Handled { call, .. } => assert_eq!(call.dry_run, false),
            _ => panic!("expected a handler run for {name}"),
        }
    }
}

#[test]
fn dry_run_without_subcommand_still_shows_help() {
    let t = trial(&["--dry-run"], valid_config_at(&["a", "b"]), Ok(()));
    assert_eq!(t.exit_code, EXIT_SUCCESS);
    assert!(matches!(t.outcome, TrialOutcome::HelpShown { .. }));
}

#[test]
fn nearest_config_wins_even_when_invalid() {
    // An invalid file in the start directory shadows a valid one
    // farther up: discovery prefers the nearest ancestor.
    let files = vec![
        FsFile { dir: dir(&["a"]), contents: "baseurl=http://far\n".to_string() },
        FsFile { dir: dir(&["a", "b", "c"]), contents: "broken line\n".to_string() },
    ];
    let t = trial(&["topic"], files, Ok(()));
    assert_eq!(t.exit_code, EXIT_FAILURE);
    match t.outcome {
        TrialOutcome::ConfigFailure { failure } => {
            assert_eq!(failure.kind, FailureKind::ConfigInvalid);
        },
        _ => panic!("expected the nearer, invalid configuration to win"),
    }
}

#[test]
fn handler_failure_is_reported_with_its_cause() {
    let cause = Failure {
        kind: FailureKind::General,
        message: "connection refused".to_string(),
        cause: None,
    };
    let failure = Failure {
        kind: FailureKind::Subcommand,
        message: "cannot list topics".to_string(),
        cause: Some(Box::new(cause)),
    };
    let t = trial(&["topic", "list"], valid_config_at(&["a", "b"]), Err(failure));
    assert_eq!(t.exit_code, EXIT_FAILURE);
    match t.outcome {
        TrialOutcome::Handled { report, .. } => {
            assert_eq!(report.error_line.as_deref(), Some("Error: cannot list topics"));
            assert_eq!(report.cause_line.as_deref(), Some("-> connection refused"));
        },
        _ => panic!("expected a reported handler failure"),
    }
}

#[test]
fn only_the_immediate_cause_is_reported() {
    let deep = Failure { kind: FailureKind::General, message: "deep".to_string(), cause: None };
    let mid = Failure {
        kind: FailureKind::General,
        message: "mid".to_string(),
        cause: Some(Box::new(deep)),
    };
    let failure = Failure {
        kind: FailureKind::Subcommand,
        message: "top".to_string(),
        cause: Some(Box::new(mid)),
    };
    let t = trial(&["changes"], valid_config_at(&["a", "b"]), Err(failure));
    match t.outcome {
        TrialOutcome::Handled { report, .. } => {
            assert_eq!(report.error_line.as_deref(), Some("Error: top"));
            assert_eq!(report.cause_line.as_deref(), Some("-> mid"));
        },
        _ => panic!("expected a reported handler failure"),
    }
}

#[test]
fn handler_failure_without_cause_prints_one_line() {
    let failure = Failure {
        kind: FailureKind::Subcommand,
        message: "nothing to do".to_string(),
        cause: None,
    };
    let t = trial(&["gerritapi"], valid_config_at(&["a", "b"]), Err(failure));
    assert_eq!(t.exit_code, EXIT_FAILURE);
    match t.outcome {
        TrialOutcome::Handled { report, .. } => {
            assert_eq!(report.error_line.as_deref(), Some("Error: nothing to do"));
            assert!(report.cause_line.is_none());
        },
        _ => panic!("expected a reported handler failure"),
    }
}
