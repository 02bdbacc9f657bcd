//! Clearing a stale lock file from the log view: the check before the
//! operator is asked to authenticate, and the reading of what the helper
//! answered.

use vstd::prelude::*;
use vstd::string::*;

use crate::processes::managers_among;
use crate::processes::probe_models;
use crate::processes::ProbeModel;
use crate::processes::ProcessProbe;
use crate::processes::running_package_managers;
use crate::text::append;
use crate::text::chars_of;
use crate::text::join;
use crate::text::joined;
use crate::text::text_of;
use crate::text::texts;
use crate::text::trim_chars;
use crate::text::trimmed;

verus! {

/// The line that opens a cleanup in the transcript.
pub fn cleanup_notice() -> (r: &'static str)
    ensures
        r@ == "Checking for active package managers before lock cleanup..."@,
{
    "Checking for active package managers before lock cleanup..."
}

/// The arguments with which the privilege-escalation prompt runs the
/// cleanup: the validating helper and its target.
pub fn cleanup_args(helper: &str) -> (r: Vec<String>)
    ensures
        texts(r@) == seq![helper@, "clear-pacman-lock"@],
{
    let mut args: Vec<String> = Vec::new();
    args.push(String::from_str(helper));
    args.push(String::from_str("clear-pacman-lock"));
    assert(texts(args@) =~= seq![helper@, "clear-pacman-lock"@]);
    args
}

/// Whether the cleanup may go on to ask for authentication, and the line
/// that says so or says why not.
pub open spec fn cleanup_verdict(probes: Seq<ProbeModel>) -> (bool, Seq<char>) {
    match managers_among(probes) {
        Err(report) => (false, "Safety check failed: "@ + report),
        Ok(running) => if running.len() > 0 {
            (
                false,
                "Refusing to clear pacman lock because these processes are active: "@ + joined(
                    running,
                    ", "@,
                ),
            )
        } else {
            (true, "No active package manager found. Requesting authentication..."@)
        },
    }
}

/// Decides whether the cleanup may go on, by what the process table showed
/// for each package manager: only if every probe worked and found nothing.
/// Returns the decision and the line for the transcript.
pub fn cleanup_check(probes: &[ProcessProbe]) -> (r: (bool, String))
    ensures
        (r.0, r.1@) == cleanup_verdict(probe_models(probes@)),
{
    match running_package_managers(probes) {
        Err(report) => (false, append("Safety check failed: ", report.as_str())),
        Ok(running) => if running.len() > 0 {
            (
                false,
                append(
                    "Refusing to clear pacman lock because these processes are active: ",
                    join(&running, ", ").as_str(),
                ),
            )
        } else {
            (true, String::from_str("No active package manager found. Requesting authentication..."))
        },
    }
}

/// What the helper's answer to a cleanup means: when it succeeded, what it
/// printed, or a fixed line if it printed nothing; when it failed, its
/// diagnostic, else what it printed, else its status.
pub open spec fn cleanup_result(
    succeeded: bool,
    output: Seq<char>,
    diagnostic: Seq<char>,
    status: Seq<char>,
) -> Result<Seq<char>, Seq<char>> {
    if succeeded {
        if trimmed(output).len() == 0 {
            Ok("Pacman lock cleanup completed."@)
        } else {
            Ok(trimmed(output))
        }
    } else if trimmed(diagnostic).len() > 0 {
        Err(trimmed(diagnostic))
    } else if trimmed(output).len() > 0 {
        Err(trimmed(output))
    } else {
        Err("command failed with status "@ + status)
    }
}

/// Reads the helper's answer to a cleanup: whether it succeeded, what it
/// printed, its diagnostic, and a description of its exit status.
pub fn clear_stale_pacman_lock(succeeded: bool, output: &str, diagnostic: &str, status: &str) -> (r:
    Result<String, String>)
    ensures
        match r {
            Ok(message) => cleanup_result(succeeded, output@, diagnostic@, status@) == Ok::<
                Seq<char>,
                Seq<char>,
            >(message@),
            Err(message) => cleanup_result(succeeded, output@, diagnostic@, status@) == Err::<
                Seq<char>,
                Seq<char>,
            >(message@),
        },
{
    let printed = trim_chars(chars_of(output).as_slice());
    let complaint = trim_chars(chars_of(diagnostic).as_slice());
    if succeeded {
        if printed.len() == 0 {
            Ok(String::from_str("Pacman lock cleanup completed."))
        } else {
            Ok(text_of(printed.as_slice()))
        }
    } else if complaint.len() > 0 {
        Err(text_of(complaint.as_slice()))
    } else if printed.len() > 0 {
        Err(text_of(printed.as_slice()))
    } else {
        Err(append("command failed with status ", status))
    }
}

/// The line of the transcript for the outcome of a cleanup.
pub fn cleanup_report(outcome: &Result<String, String>) -> (r: String)
    ensures
        r@ == match outcome {
            Ok(message) => message@,
            Err(error) => "Failed to clear pacman lock: "@ + error@,
        },
{
    match outcome {
        Ok(message) => message.clone(),
        Err(error) => append("Failed to clear pacman lock: ", error.as_str()),
    }
}

} // verus!
