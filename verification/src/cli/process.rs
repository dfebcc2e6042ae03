//! How the CLI ends: the exit codes of an external subcommand, of an admin
//! command, and the log level that the verbosity flags choose.

use vstd::prelude::*;

use crate::text::push_str;

verus! {

/// The prefix of an external subcommand's binary: `krabka-gres` provides
/// `krabka gres`.
pub const EXTERNAL_PREFIX: &'static str = "krabka-";

/// The end of `krabka -h`.
pub const SHORT_EXTERNAL_HELP: &'static str = "Any subcommand that is not built in runs as `krabka-<name>` from PATH, such as
`restore` and `gres`. Run `krabka --help` for where each one ships from.";

/// The end of `krabka --help`.
pub const LONG_EXTERNAL_HELP: &'static str = "External subcommands:
  A subcommand that is not built in runs as `krabka-<name>` from PATH, the way
  git runs `git-foo`. Krabka looks the binary up at run time, so a subcommand
  that you did not install does not run.

  restore  Point-in-time restore of a cluster data directory. The
           krabka-broker repository ships it as `krabka-restore`.
  gres     The gres repository ships it as `krabka-gres`.";

/// The binary that runs the external subcommand `name`.
pub fn external_binary(name: &str) -> (binary: String)
    ensures
        binary@ == EXTERNAL_PREFIX@ + name@,
{
    let mut binary = String::new();
    push_str(&mut binary, EXTERNAL_PREFIX);
    push_str(&mut binary, name);
    binary
}

/// The exit code and the messages for an external subcommand that could
/// not be started: 127 when no such binary exists, as a shell reports a
/// missing command, and 126 when it exists but cannot run.
pub fn spawn_failure(not_found: bool, binary: &str, name: &str, error: &str) -> (r: (i32, Vec<String>))
    ensures
        r.0 == (if not_found { 127i32 } else { 126i32 }),
        not_found ==> r.1@.len() == 2 && r.1@[0]@ == "krabka: `"@ + name@ + "` is not a krabka command, and no `"@
            + binary@ + "` was found on PATH"@ && r.1@[1]@ == "krabka: see `krabka --help` for the built-in commands"@,
        !not_found ==> r.1@.len() == 1 && r.1@[0]@ == "krabka: failed to run "@ + binary@ + ": "@ + error@,
{
    let mut messages: Vec<String> = Vec::new();
    if not_found {
        let mut first = String::new();
        push_str(&mut first, "krabka: `");
        push_str(&mut first, name);
        push_str(&mut first, "` is not a krabka command, and no `");
        push_str(&mut first, binary);
        push_str(&mut first, "` was found on PATH");
        messages.push(first);
        messages.push("krabka: see `krabka --help` for the built-in commands".to_owned());
        (127, messages)
    } else {
        let mut line = String::new();
        push_str(&mut line, "krabka: failed to run ");
        push_str(&mut line, binary);
        push_str(&mut line, ": ");
        push_str(&mut line, error);
        messages.push(line);
        (126, messages)
    }
}

/// The exit code that a finished external subcommand passes on: its own
/// code, or 128 plus the signal that killed it, as a shell reports it, or 1.
pub fn exit_status_code(code: Option<i32>, signal: Option<i32>) -> (rc: i32)
    requires
        signal matches Some(s) ==> s <= i32::MAX - 128,
    ensures
        code matches Some(c) ==> rc == c,
        code is None ==> (signal matches Some(s) ==> rc == 128 + s),
        code is None && signal is None ==> rc == 1,
{
    match code {
        Some(c) => c,
        None => match signal {
            Some(s) => 128 + s,
            None => 1,
        },
    }
}

/// The log filter that the verbosity flags choose when the environment
/// sets none.
pub fn default_log_filter(verbose: u8, quiet: u8) -> (filter: &'static str)
    ensures
        quiet >= 1 ==> filter@ == "warn"@,
        quiet == 0 && verbose == 1 ==> filter@ == "debug"@,
        quiet == 0 && verbose >= 2 ==> filter@ == "trace"@,
        quiet == 0 && verbose == 0 ==> filter@ == "info"@,
{
    if quiet >= 1 {
        "warn"
    } else if verbose == 1 {
        "debug"
    } else if verbose >= 2 {
        "trace"
    } else {
        "info"
    }
}

/// How an admin command ended.
#[derive(Debug, Clone, Copy, PartialEq, Eq, Structural)]
pub enum AdminRun {
    /// It produced a result; `failed` if any part failed, `written` if the
    /// result could be written out.
    Completed { failed: bool, written: bool },
    /// It returned an error.
    Failed,
    /// Ctrl-C stopped it.
    Interrupted,
}

/// The exit code of an admin command: 0 for a result without failures, 1
/// for a failure of any kind, 130 when interrupted.
pub fn admin_exit_code(run: AdminRun) -> (rc: i32)
    ensures
        rc == match run {
            AdminRun::Completed { failed, written } => if written && !failed { 0i32 } else { 1i32 },
            AdminRun::Failed => 1i32,
            AdminRun::Interrupted => 130i32,
        },
{
    match run {
        AdminRun::Completed { failed, written } => {
            if written && !failed {
                0
            } else {
                1
            }
        },
        AdminRun::Failed => 1,
        AdminRun::Interrupted => 130,
    }
}

/// The message for an interrupted command: `interrupted`, or why the
/// Ctrl-C handler failed.
pub fn interrupt_message(handler_error: Option<&str>) -> (m: String)
    ensures
        handler_error is None ==> m@ == "interrupted"@,
        handler_error matches Some(e) ==> m@ == "Ctrl-C handler failed: "@ + e@,
{
    match handler_error {
        None => "interrupted".to_owned(),
        Some(e) => {
            let mut m = String::new();
            push_str(&mut m, "Ctrl-C handler failed: ");
            push_str(&mut m, e);
            m
        },
    }
}

} // verus!
