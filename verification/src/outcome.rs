//! Per-action results and their one-line renderings.
//!
//! Every action of a sequence produces exactly one `ActionOutcome`; the
//! renderings here are the only texts the engine reports.

use vstd::prelude::*;

use crate::text::{dec_str, u64_to_string};

verus! {

/// The result of executing one action.
#[derive(Clone, Debug)]
pub enum ActionOutcome {
    /// A new process was spawned for a launch step.
    Launched { path: String },
    /// The executable already had visible windows; they were adjusted instead.
    AdjustedExisting { exe_name: String },
    /// The process could not be started.
    LaunchFailed { path: String, error: String },
    /// Termination was signalled to `count` matching processes.
    Killed { count: u64, process_name: String },
    /// No running process matched the kill name.
    ProcessNotFound { process_name: String },
    /// The folder was handed to the shell.
    OpenedFolder { path: String },
    /// The shell refused to open the folder.
    FolderOpenFailed { path: String, error: String },
    /// The URL was handed to a browser or to the shell.
    OpenedUrl { url: String },
    /// No browser and no shell fallback accepted the URL.
    UrlOpenFailed { url: String, error: String },
    /// The sequence paused for `ms` milliseconds.
    Delayed { ms: u64 },
}

pub open spec fn msg_launched(path: Seq<char>) -> Seq<char> {
    "Launched: "@ + path
}

pub open spec fn msg_adjusted(exe_name: Seq<char>) -> Seq<char> {
    "Adjusted window for already running: "@ + exe_name
}

pub open spec fn msg_launch_failed(path: Seq<char>, error: Seq<char>) -> Seq<char> {
    "Failed to launch "@ + path + ": "@ + error
}

pub open spec fn msg_killed(count: nat, process_name: Seq<char>) -> Seq<char> {
    "Killed "@ + dec_str(count) + " instance(s) of "@ + process_name
}

pub open spec fn msg_not_found(process_name: Seq<char>) -> Seq<char> {
    "Process not found: "@ + process_name
}

pub open spec fn msg_opened_folder(path: Seq<char>) -> Seq<char> {
    "Opened folder: "@ + path
}

pub open spec fn msg_folder_failed(path: Seq<char>, error: Seq<char>) -> Seq<char> {
    "Failed to open folder "@ + path + ": "@ + error
}

pub open spec fn msg_opened_url(url: Seq<char>) -> Seq<char> {
    "Opened URL: "@ + url
}

pub open spec fn msg_url_failed(url: Seq<char>, error: Seq<char>) -> Seq<char> {
    "Failed to open URL "@ + url + ": "@ + error
}

pub open spec fn msg_delayed(ms: nat) -> Seq<char> {
    "Delayed for "@ + dec_str(ms) + "ms"@
}

/// Whether the outcome counts as an error of its action.
pub open spec fn spec_outcome_is_err(o: ActionOutcome) -> bool {
    match o {
        ActionOutcome::LaunchFailed { .. } => true,
        ActionOutcome::ProcessNotFound { .. } => true,
        ActionOutcome::FolderOpenFailed { .. } => true,
        ActionOutcome::UrlOpenFailed { .. } => true,
        _ => false,
    }
}

/// The one-line text of an outcome.
pub open spec fn spec_render(o: ActionOutcome) -> Seq<char> {
    match o {
        ActionOutcome::Launched { path } => msg_launched(path@),
        ActionOutcome::AdjustedExisting { exe_name } => msg_adjusted(exe_name@),
        ActionOutcome::LaunchFailed { path, error } => msg_launch_failed(path@, error@),
        ActionOutcome::Killed { count, process_name } => msg_killed(
            count as nat,
            process_name@,
        ),
        ActionOutcome::ProcessNotFound { process_name } => msg_not_found(process_name@),
        ActionOutcome::OpenedFolder { path } => msg_opened_folder(path@),
        ActionOutcome::FolderOpenFailed { path, error } => msg_folder_failed(path@, error@),
        ActionOutcome::OpenedUrl { url } => msg_opened_url(url@),
        ActionOutcome::UrlOpenFailed { url, error } => msg_url_failed(url@, error@),
        ActionOutcome::Delayed { ms } => msg_delayed(ms as nat),
    }
}

/// Whether the outcome counts as an error of its action.
pub fn outcome_is_err(o: &ActionOutcome) -> (r: bool)
    ensures
        r == spec_outcome_is_err(*o),
{
    match o {
        ActionOutcome::LaunchFailed { .. } => true,
        ActionOutcome::ProcessNotFound { .. } => true,
        ActionOutcome::FolderOpenFailed { .. } => true,
        ActionOutcome::UrlOpenFailed { .. } => true,
        _ => false,
    }
}

/// Renders an outcome to its one-line text.
pub fn render_outcome(o: &ActionOutcome) -> (r: String)
    ensures
        r@ == spec_render(*o),
{
    match o {
        ActionOutcome::Launched { path } => {
            let mut s = String::from_str("Launched: ");
            s.append(path.as_str());
            s
        },
        ActionOutcome::AdjustedExisting { exe_name } => {
            let mut s = String::from_str("Adjusted window for already running: ");
            s.append(exe_name.as_str());
            s
        },
        ActionOutcome::LaunchFailed { path, error } => {
            let mut s = String::from_str("Failed to launch ");
            s.append(path.as_str());
            s.append(": ");
            s.append(error.as_str());
            s
        },
        ActionOutcome::Killed { count, process_name } => {
            let mut s = String::from_str("Killed ");
            let n = u64_to_string(*count);
            s.append(n.as_str());
            s.append(" instance(s) of ");
            s.append(process_name.as_str());
            s
        },
        ActionOutcome::ProcessNotFound { process_name } => {
            let mut s = String::from_str("Process not found: ");
            s.append(process_name.as_str());
            s
        },
        ActionOutcome::OpenedFolder { path } => {
            let mut s = String::from_str("Opened folder: ");
            s.append(path.as_str());
            s
        },
        ActionOutcome::FolderOpenFailed { path, error } => {
            let mut s = String::from_str("Failed to open folder ");
            s.append(path.as_str());
            s.append(": ");
            s.append(error.as_str());
            s
        },
        ActionOutcome::OpenedUrl { url } => {
            let mut s = String::from_str("Opened URL: ");
            s.append(url.as_str());
            s
        },
        ActionOutcome::UrlOpenFailed { url, error } => {
            let mut s = String::from_str("Failed to open URL ");
            s.append(url.as_str());
            s.append(": ");
            s.append(error.as_str());
            s
        },
        ActionOutcome::Delayed { ms } => {
            let mut s = String::from_str("Delayed for ");
            let n = u64_to_string(*ms);
            s.append(n.as_str());
            s.append("ms");
            s
        },
    }
}

/// The line the sequencer records for an outcome: errors are prefixed, as the
/// sequence never aborts on them.
pub open spec fn spec_sequence_entry(o: ActionOutcome) -> Seq<char> {
    if spec_outcome_is_err(o) {
        "Error: "@ + spec_render(o)
    } else {
        spec_render(o)
    }
}

/// Renders the line the sequencer records for an outcome.
pub fn sequence_entry(o: &ActionOutcome) -> (r: String)
    ensures
        r@ == spec_sequence_entry(*o),
{
    let text = render_outcome(o);
    if outcome_is_err(o) {
        let mut s = String::from_str("Error: ");
        s.append(text.as_str());
        s
    } else {
        text
    }
}

} // verus!
