//! Command-dispatch and configuration-resolution layer of a Gerrit
//! review command-line tool.
//!
//! The crate covers the orchestration of one invocation: composing the
//! command grammar, parsing the process arguments, discovering and
//! validating the project configuration file, merging the global
//! `--dry-run` flag into the configuration, routing to exactly one
//! subcommand handler, and normalizing every failure into a single
//! reported outcome.
//!
//! Exit-status convention: `0` for success, which includes an invocation
//! that names no subcommand and only shows help; `1` for every failure
//! (usage errors, configuration loading or validation failures, and
//! subcommand failures).
//!
//! The subcommand handlers themselves, the review-server client they
//! talk to, and all file and terminal I/O live outside this crate; the
//! functions here work on plain values and say in their contracts what
//! each step of the invocation decides.

pub mod config;
pub mod discover;
pub mod dispatch;
pub mod grammar;
pub mod text;

use vstd::prelude::*;

verus! {

use crate::config::{contents_valid, opt_chars, setting, Config};
use crate::discover::{discover_in, first_file_in, nearest_dir, ConfigFile, DirPath, FsFile};
use crate::dispatch::{dispatch_decision, report, Failure, FailureKind, HandlerCall, Route};
use crate::grammar::{
    compose, help_lines, parse, standard_parse, subcommand_at, ParseModel, UsageError,
};
use crate::text::seq_views;

/// Exit status of an invocation that succeeded or only printed help.
pub const EXIT_SUCCESS: u8 = 0;

/// Exit status of an invocation that failed in any way.
pub const EXIT_FAILURE: u8 = 1;

/// Builds the runtime configuration from what discovery found.
/// Nothing found, and a file whose contents are not valid, are both
/// fatal: they end the invocation before any dispatch.
pub fn load_config(found: Option<ConfigFile>) -> (r: Result<Config, Failure>)
    ensures
        match found {
            None => r matches Err(f) && f.kind == FailureKind::ConfigLoad && f.message@
                == "problem with configfile"@ && f.cause is None,
            Some(cf) => {
                if contents_valid(cf.contents@) {
                    r matches Ok(c) && c.valid && c.dry_run == false && Some(c.baseurl@)
                        == setting(cf.contents@, "baseurl"@) && opt_chars(c.username) == setting(
                        cf.contents@,
                        "username"@,
                    ) && opt_chars(c.password) == setting(cf.contents@, "password"@)
                } else {
                    r matches Err(f) && f.kind == FailureKind::ConfigInvalid && f.message@
                        == "problem with configfile"@ && f.cause is None
                }
            },
        },
{
    match found {
        None => Err(
            Failure {
                kind: FailureKind::ConfigLoad,
                message: "problem with configfile".to_owned(),
                cause: None,
            },
        ),
        Some(cf) => {
            let c = Config::from_configfile(cf);
            if c.is_valid() {
                Ok(c)
            } else {
                Err(
                    Failure {
                        kind: FailureKind::ConfigInvalid,
                        message: "problem with configfile".to_owned(),
                        cause: None,
                    },
                )
            }
        },
    }
}

/// How one whole invocation ended.
pub enum TrialOutcome {
    /// The arguments did not match the grammar; nothing else ran.
    Usage { error: UsageError },
    /// The configuration could not be loaded or was invalid; no
    /// handler ran.
    ConfigFailure { failure: Failure },
    /// No subcommand was named: the help text was shown.
    HelpShown { lines: Vec<String> },
    /// Exactly one handler ran; its outcome was reported.
    Handled { call: HandlerCall, report: crate::dispatch::Report },
}

/// The result of one whole invocation.
pub struct Trial {
    pub exit_code: u8,
    pub outcome: TrialOutcome,
}

/// The contents of the configuration file that discovery would find:
/// those of the first listed file in the nearest ancestor of `start`
/// that holds one.
pub open spec fn found_contents(files: Seq<FsFile>, start: Seq<Seq<char>>) -> Option<Seq<char>> {
    let h = nearest_dir(files, start, start.len() as int);
    if h < 0 {
        None
    } else {
        let k = first_file_in(files, start.take(h));
        if k < 0 {
            None
        } else {
            Some(files[k].contents@)
        }
    }
}

/// One whole invocation over plain values: parse the arguments,
/// discover and load the configuration, merge the dry-run flag, route
/// to at most one handler, and report.  The filesystem is given as
/// the directories that hold a configuration file, and the handler's
/// outcome as a value, so every decision of the lifecycle is checked
/// here; a grammar error ends the invocation before any discovery,
/// and a configuration failure before any dispatch.
pub fn run_trial(
    args: &Vec<String>,
    files: &Vec<FsFile>,
    start: &DirPath,
    handler_outcome: Result<(), Failure>,
) -> (t: Trial)
    ensures
        ({
            let m = standard_parse(seq_views(args@));
            let fc = found_contents(files@, start@);
            &&& (m matches ParseModel::BadFlag { token } ==> t.outcome
                matches TrialOutcome::Usage { error: UsageError::UnknownFlag { token: tk } }
                && tk@ == token && t.exit_code == EXIT_FAILURE)
            &&& (m matches ParseModel::BadSubcommand { token } ==> t.outcome
                matches TrialOutcome::Usage {
                error: UsageError::UnknownSubcommand { token: tk },
            } && tk@ == token && t.exit_code == EXIT_FAILURE)
            &&& (m matches ParseModel::Accepted { dry_run, sub, sub_args } ==> {
                &&& (fc is None ==> (t.outcome matches TrialOutcome::ConfigFailure { failure }
                    && failure.kind == FailureKind::ConfigLoad && failure.message@
                    == "problem with configfile"@ && t.exit_code == EXIT_FAILURE))
                &&& ((fc matches Some(cc) && !contents_valid(cc)) ==> (t.outcome
                    matches TrialOutcome::ConfigFailure { failure } && failure.kind
                    == FailureKind::ConfigInvalid && failure.message@
                    == "problem with configfile"@ && t.exit_code == EXIT_FAILURE))
                &&& ((fc matches Some(cc) && contents_valid(cc)) ==> (match sub {
                    None => t.outcome matches TrialOutcome::HelpShown { lines } && lines@.len()
                        == 5 && t.exit_code == EXIT_SUCCESS,
                    Some(si) => t.outcome matches TrialOutcome::Handled { call, report }
                        && Some(call.sub) == subcommand_at(si) && call.dry_run == dry_run
                        && seq_views(call.args@) == sub_args && t.exit_code == report.exit_code
                        && (match handler_outcome {
                        Ok(u) => report.exit_code == EXIT_SUCCESS && report.error_line is None,
                        Err(f) => report.exit_code == EXIT_FAILURE && (report.error_line
                            matches Some(mm) && mm@ == "Error: "@ + f.message@),
                    }),
                }))
            })
        }),
{
    let parsed = match parse(args) {
        Err(error) => {
            return Trial { exit_code: EXIT_FAILURE, outcome: TrialOutcome::Usage { error } };
        },
        Ok(p) => p,
    };
    let found = discover_in(start, files);
    proof {
        match &found {
            Some(cf) => {
                assert(found_contents(files@, start@) == Some(cf.contents@));
            },
            None => {
                assert(found_contents(files@, start@) is None);
            },
        }
    }
    let mut config = match load_config(found) {
        Err(failure) => {
            return Trial {
                exit_code: EXIT_FAILURE,
                outcome: TrialOutcome::ConfigFailure { failure },
            };
        },
        Ok(c) => c,
    };
    config.set_dry_run(parsed.dry_run);
    match dispatch_decision(parsed, &config) {
        Route::Help => {
            let g = compose();
            let lines = help_lines(&g);
            Trial { exit_code: EXIT_SUCCESS, outcome: TrialOutcome::HelpShown { lines } }
        },
        Route::Call(call) => {
            let rep = report(&handler_outcome);
            Trial {
                exit_code: rep.exit_code,
                outcome: TrialOutcome::Handled { call, report: rep },
            }
        },
    }
}

} // verus!
