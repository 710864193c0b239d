//! Routing to exactly one subcommand handler, and the normalization
//! of failures into one reported outcome.

use vstd::prelude::*;

verus! {

use crate::config::Config;
use crate::grammar::{ParsedArguments, Subcommand};
use vstd::string::StringExecFns;

/// The kinds of failure an invocation can end in.
#[derive(Clone, Copy, PartialEq, Eq, Structural, Debug)]
pub enum FailureKind {
    /// The configuration file could not be found or read.
    ConfigLoad,
    /// The configuration file was read but is not valid.
    ConfigInvalid,
    /// A failure of the orchestration itself, carrying a message.
    General,
    /// An opaque failure surfaced by a subcommand handler.
    Subcommand,
}

/// A structured failure: its kind, a top-level message, and an
/// optional chained cause.  The chain has no depth limit, but
/// reporting walks exactly one level: only the immediate cause is
/// shown.
pub struct Failure {
    pub kind: FailureKind,
    pub message: String,
    pub cause: Option<Box<Failure>>,
}

/// One handler invocation: which handler, the dry-run state it
/// observes, and its own arguments.  Handlers receive the
/// configuration by reference and must not mutate it.
pub struct HandlerCall {
    pub sub: Subcommand,
    pub dry_run: bool,
    pub args: Vec<String>,
}

/// Where an invocation goes after configuration is resolved: to the
/// help text, or to exactly one handler.
pub enum Route {
    Help,
    Call(HandlerCall),
}

/// Routes the parsed arguments: no subcommand shows help (a valid,
/// non-error outcome), a named subcommand becomes exactly one handler
/// call carrying the configuration's dry-run state.  Only a valid
/// configuration may be handed to a handler.
pub fn dispatch_decision(p: ParsedArguments, c: &Config) -> (r: Route)
    requires
        c.valid,
    ensures
        match p.subcommand {
            None => r is Help,
            Some(s) => r matches Route::Call(h) && h.sub == s && h.dry_run == c.dry_run
                && h.args == p.sub_args,
        },
{
    match p.subcommand {
        None => Route::Help,
        Some(s) => Route::Call(HandlerCall { sub: s, dry_run: c.dry_run, args: p.sub_args }),
    }
}

/// The rendered outcome of an invocation: the exit status and, on
/// failure, the lines to print: the top-level message behind an
/// `Error:` marker and, when a cause is carried, its message behind a
/// `->` indicator.
pub struct Report {
    pub exit_code: u8,
    pub error_line: Option<String>,
    pub cause_line: Option<String>,
}

/// Renders the terminal result of dispatch.  Success exits 0 with no
/// error lines; a failure exits 1 with its message, and with the
/// message of its immediate cause when it carries one (deeper causes
/// are intentionally not shown).
pub fn report(outcome: &Result<(), Failure>) -> (r: Report)
    ensures
        match outcome {
            Ok(u) => r.exit_code == crate::EXIT_SUCCESS && r.error_line is None
                && r.cause_line is None,
            Err(f) => r.exit_code == crate::EXIT_FAILURE && (r.error_line matches Some(m)
                && m@ == "Error: "@ + f.message@) && (match f.cause {
                Some(cb) => r.cause_line matches Some(cm) && cm@ == "-> "@ + cb.message@,
                None => r.cause_line is None,
            }),
        },
{
    match outcome {
        Ok(_) => Report { exit_code: crate::EXIT_SUCCESS, error_line: None, cause_line: None },
        Err(f) => {
            let cause_line = match &f.cause {
                Some(c) => Some("-> ".to_owned().concat(c.message.as_str())),
                None => None,
            };
            Report {
                exit_code: crate::EXIT_FAILURE,
                error_line: Some("Error: ".to_owned().concat(f.message.as_str())),
                cause_line,
            }
        },
    }
}

} // verus!
