//! The action executor.
//!
//! Executing one action is a conversation with the operating system: queries
//! over the live window table, process spawns and signals, shell opens and
//! fixed settle pauses. The executor is therefore an explicit machine: it
//! names the next call it needs (`pending`), and `step` consumes the call's
//! result and decides what follows. Every decision between two calls is
//! verified; the caller only performs the calls and feeds the results back.

use vstd::prelude::*;

use crate::browser::{
    browser_name, candidate_flag, candidate_path, extract_command_path, new_window_flag,
    spec_browser_name, spec_candidate_flag, spec_candidate_path, spec_extract_command_path,
    spec_new_window_flag,
};
use crate::data::{Action, ProcessInfo};
use crate::geometry::{default_spawn_rect, spec_default_spawn_rect, Rect, WindowConfig};
use crate::outcome::ActionOutcome;
use crate::resolver::{
    find_by_title_contains, first_new_window, handles_of, spec_first_new,
    spec_first_title_match, spec_handles, vec_contains_i64, TitledWindow,
};
use crate::text::{file_name_of, lower_of, lowercase, spec_file_name};

verus! {

/// One call the executor asks its caller to make into the operating system.
pub enum OsCommand {
    /// All visible, titled windows of processes with this executable name.
    QueryWindowsOfExe { exe_name: String },
    /// The first visible window of the process with this id.
    QueryWindowByPid { pid: u32 },
    /// The current rectangle of a window.
    FetchRect { hwnd: i64 },
    /// Move a window and try, best-effort, to bring it to the foreground.
    ApplyRect { hwnd: i64, rect: Rect },
    /// Spawn a program with arguments; answer with its process id.
    SpawnProgram { path: String, args: Vec<String> },
    /// The current process list.
    ListProcesses,
    /// Signal termination to one process.
    SignalKill { pid: u32 },
    /// Hand a path to the shell's `open` primitive.
    ShellOpen { path: String },
    /// The default browser's programmatic id and open command, if readable.
    QueryDefaultBrowserCommand,
    /// Whether a file exists on disk.
    ProbeFile { path: String },
    /// The current foreground window.
    QueryForeground,
    /// Block this sequence for the given number of milliseconds.
    Pause { ms: u64 },
}

/// The default browser registration: its programmatic id and the raw command
/// line registered for opening URLs.
pub struct BrowserChoice {
    pub prog_id: String,
    pub command: String,
}

/// The result of one `OsCommand`, fed back into the machine.
pub enum OsResponse {
    TitledWindows { windows: Vec<TitledWindow> },
    FoundWindow { hwnd: Option<i64> },
    RectFetched { rect: Option<Rect> },
    Applied,
    SpawnResult { result: Result<u32, String> },
    Processes { list: Vec<ProcessInfo> },
    Signalled,
    ShellOpened { result: Result<(), String> },
    BrowserCommand { choice: Option<BrowserChoice> },
    FileExists { exists: bool },
    Paused,
}

/// Where the executor stands between two calls.
pub enum Phase {
    /// Launch: looking for existing windows of the executable.
    QueryExisting,
    /// Launch: reading the rectangle of existing window `idx`.
    AdjustFetch { windows: Vec<TitledWindow>, idx: usize },
    /// Launch: applying the overlaid rectangle to existing window `idx`.
    AdjustApply { windows: Vec<TitledWindow>, idx: usize, rect: Rect },
    /// Launch: no existing window; spawning the program.
    SpawnNew,
    /// Launch: fixed pause before looking for the new process's window.
    LaunchSettle { pid: u32 },
    /// Launch: poll `attempt` of the bounded window search.
    LaunchPoll { pid: u32, attempt: u8 },
    /// Launch: pause between two polls.
    LaunchPollSleep { pid: u32, attempt: u8 },
    /// Launch: applying the requested geometry to the fresh window.
    LaunchApplyNew { hwnd: i64 },
    /// Kill: reading the process list.
    KillQuery,
    /// Kill: signalling match `idx` of the matched processes.
    KillSignal { pids: Vec<u32>, idx: usize },
    /// OpenFolder: snapshotting the shell windows before opening.
    FolderSnapshot,
    /// OpenFolder: handing the path to the shell.
    FolderOpen { before: Vec<i64> },
    /// OpenFolder: fixed settle pause.
    FolderSettle { before: Vec<i64> },
    /// OpenFolder: re-reading the shell windows to resolve the new one.
    FolderQueryAfter { before: Vec<i64> },
    /// OpenFolder: reading the resolved window's rectangle.
    FolderFetchRect { hwnd: i64 },
    /// OpenFolder: applying the overlaid rectangle.
    FolderApply { hwnd: i64, rect: Rect },
    /// OpenUrl: snapshotting the windows of browser `browser_idx`.
    UrlSnapshot { browser_idx: usize, before: Vec<i64> },
    /// OpenUrl: reading the default browser registration.
    UrlQueryDefault { before: Vec<i64> },
    /// OpenUrl: spawning the default browser with its new-window flag.
    UrlSpawnDefault { before: Vec<i64>, browser_path: String, flag: String },
    /// OpenUrl: probing fixed install path `cand_idx`.
    UrlProbeCandidate { before: Vec<i64>, cand_idx: usize },
    /// OpenUrl: spawning fixed install path `cand_idx`.
    UrlSpawnCandidate { before: Vec<i64>, cand_idx: usize },
    /// OpenUrl: last resort, handing the URL to the shell.
    UrlSpawnShell { before: Vec<i64> },
    /// OpenUrl: fixed settle pause.
    UrlSettle { before: Vec<i64> },
    /// OpenUrl: reading the foreground window.
    UrlForeground { before: Vec<i64> },
    /// OpenUrl: checking whether the foreground window belongs to browser
    /// `browser_idx`.
    UrlMatchForeground { before: Vec<i64>, fg: i64, browser_idx: usize },
    /// OpenUrl: diffing browser `browser_idx`'s windows against the snapshot.
    UrlDiff { before: Vec<i64>, browser_idx: usize },
    /// OpenUrl: reading the resolved window's rectangle.
    UrlFetchRect { hwnd: i64 },
    /// OpenUrl: applying the overlaid rectangle.
    UrlApply { hwnd: i64, rect: Rect },
    /// Delay: pausing.
    DelaySleep,
    /// The action is finished.
    Done { outcome: ActionOutcome },
}

/// The geometry request of an action, if it carries one.
pub open spec fn spec_config_of(a: Action) -> Option<WindowConfig> {
    match a {
        Action::Launch { window_config, .. } => window_config,
        Action::OpenFolder { window_config, .. } => window_config,
        Action::OpenUrl { window_config, .. } => window_config,
        _ => None,
    }
}

/// The geometry request of an action, if it carries one.
pub fn config_of(a: &Action) -> (c: Option<WindowConfig>)
    ensures
        c == spec_config_of(*a),
{
    match a {
        Action::Launch { window_config, .. } => *window_config,
        Action::OpenFolder { window_config, .. } => *window_config,
        Action::OpenUrl { window_config, .. } => *window_config,
        _ => None,
    }
}

/// The process ids of the listed processes whose name equals `name` after
/// case folding, in list order.
pub open spec fn spec_matching_pids(list: Seq<ProcessInfo>, name: Seq<char>) -> Seq<u32>
    decreases list.len(),
{
    if list.len() == 0 {
        Seq::empty()
    } else {
        let rest = spec_matching_pids(list.drop_last(), name);
        if lower_of(list.last().name@) == lower_of(name) {
            rest.push(list.last().pid)
        } else {
            rest
        }
    }
}

/// The process ids whose name matches `name` case-insensitively.
pub fn matching_pids(list: &Vec<ProcessInfo>, name: &str) -> (r: Vec<u32>)
    ensures
        r@ == spec_matching_pids(list@, name@),
{
    let target = lowercase(name);
    let mut r: Vec<u32> = Vec::new();
    let mut i: usize = 0;
    proof {
        assert(list@.take(0) =~= Seq::<ProcessInfo>::empty());
    }
    while i < list.len()
        invariant
            target@ == lower_of(name@),
            0 <= i <= list@.len(),
            r@ == spec_matching_pids(list@.take(i as int), name@),
        decreases list@.len() - i,
    {
        proof {
            assert(list@.take(i + 1).drop_last() =~= list@.take(i as int));
            assert(list@.take(i + 1).last() == list@[i as int]);
        }
        let pname = lowercase(list[i].name.as_str());
        if pname.eq(&target) {
            r.push(list[i].pid);
        }
        i += 1;
    }
    proof {
        assert(list@.take(list@.len() as int) =~= list@);
    }
    r
}

/// Clones a string vector, preserving its view.
fn clone_string_vec(v: &Vec<String>) -> (r: Vec<String>)
    ensures
        r@ == v@,
{
    let mut r: Vec<String> = Vec::new();
    let mut i: usize = 0;
    while i < v.len()
        invariant
            0 <= i <= v@.len(),
            r@ == v@.take(i as int),
        decreases v@.len() - i,
    {
        proof {
            assert(v@.take(i + 1) =~= v@.take(i as int).push(v@[i as int]));
        }
        r.push(v[i].clone());
        i += 1;
    }
    proof {
        assert(v@.take(v@.len() as int) =~= v@);
    }
    r
}

/// One action's execution in progress.
pub struct ExecMachine {
    /// The action being executed.
    pub action: Action,
    /// The file name of the launch target (empty for other actions).
    pub exe_name: String,
    /// Where execution stands.
    pub phase: Phase,
}

impl ExecMachine {
    /// The phase data is consistent with the action being executed.
    pub open spec fn wf(self) -> bool {
        let cfg = spec_config_of(self.action);
        match self.phase {
            Phase::QueryExisting => self.action is Launch && self.exe_name@ == spec_file_name(
                self.action->Launch_path@,
            ),
            Phase::AdjustFetch { windows, idx } => self.action is Launch && idx < windows@.len()
                && cfg is Some && self.exe_name@ == spec_file_name(self.action->Launch_path@),
            Phase::AdjustApply { windows, idx, .. } => self.action is Launch && idx
                < windows@.len() && cfg is Some && self.exe_name@ == spec_file_name(
                self.action->Launch_path@,
            ),
            Phase::SpawnNew => self.action is Launch,
            Phase::LaunchSettle { .. } => self.action is Launch && cfg is Some,
            Phase::LaunchPoll { attempt, .. } => self.action is Launch && cfg is Some && attempt
                < 10,
            Phase::LaunchPollSleep { attempt, .. } => self.action is Launch && cfg is Some
                && attempt < 10,
            Phase::LaunchApplyNew { .. } => self.action is Launch && cfg is Some,
            Phase::KillQuery => self.action is Kill,
            Phase::KillSignal { pids, idx } => self.action is Kill && idx < pids@.len(),
            Phase::FolderSnapshot => self.action is OpenFolder && cfg is Some,
            Phase::FolderOpen { .. } => self.action is OpenFolder,
            Phase::FolderSettle { .. } => self.action is OpenFolder && cfg is Some,
            Phase::FolderQueryAfter { .. } => self.action is OpenFolder && cfg is Some,
            Phase::FolderFetchRect { .. } => self.action is OpenFolder && cfg is Some,
            Phase::FolderApply { .. } => self.action is OpenFolder && cfg is Some,
            Phase::UrlSnapshot { browser_idx, .. } => self.action is OpenUrl && cfg is Some
                && browser_idx < 5,
            Phase::UrlQueryDefault { .. } => self.action is OpenUrl,
            Phase::UrlSpawnDefault { .. } => self.action is OpenUrl,
            Phase::UrlProbeCandidate { cand_idx, .. } => self.action is OpenUrl && cand_idx < 6,
            Phase::UrlSpawnCandidate { cand_idx, .. } => self.action is OpenUrl && cand_idx < 6,
            Phase::UrlSpawnShell { .. } => self.action is OpenUrl,
            Phase::UrlSettle { .. } => self.action is OpenUrl && cfg is Some,
            Phase::UrlForeground { .. } => self.action is OpenUrl && cfg is Some,
            Phase::UrlMatchForeground { browser_idx, .. } => self.action is OpenUrl && cfg
                is Some && browser_idx < 5,
            Phase::UrlDiff { browser_idx, .. } => self.action is OpenUrl && cfg is Some
                && browser_idx < 5,
            Phase::UrlFetchRect { .. } => self.action is OpenUrl && cfg is Some,
            Phase::UrlApply { .. } => self.action is OpenUrl && cfg is Some,
            Phase::DelaySleep => self.action is Delay,
            Phase::Done { .. } => true,
        }
    }

    /// The action is finished.
    pub open spec fn spec_done(self) -> bool {
        self.phase is Done
    }

    /// Which response kind the machine expects next.
    pub open spec fn accepts(self, resp: OsResponse) -> bool {
        match self.phase {
            Phase::QueryExisting => resp is TitledWindows,
            Phase::AdjustFetch { .. } => resp is RectFetched,
            Phase::AdjustApply { .. } => resp is Applied,
            Phase::SpawnNew => resp is SpawnResult,
            Phase::LaunchSettle { .. } => resp is Paused,
            Phase::LaunchPoll { .. } => resp is FoundWindow,
            Phase::LaunchPollSleep { .. } => resp is Paused,
            Phase::LaunchApplyNew { .. } => resp is Applied,
            Phase::KillQuery => resp is Processes,
            Phase::KillSignal { .. } => resp is Signalled,
            Phase::FolderSnapshot => resp is TitledWindows,
            Phase::FolderOpen { .. } => resp is ShellOpened,
            Phase::FolderSettle { .. } => resp is Paused,
            Phase::FolderQueryAfter { .. } => resp is TitledWindows,
            Phase::FolderFetchRect { .. } => resp is RectFetched,
            Phase::FolderApply { .. } => resp is Applied,
            Phase::UrlSnapshot { .. } => resp is TitledWindows,
            Phase::UrlQueryDefault { .. } => resp is BrowserCommand,
            Phase::UrlSpawnDefault { .. } => resp is SpawnResult,
            Phase::UrlProbeCandidate { .. } => resp is FileExists,
            Phase::UrlSpawnCandidate { .. } => resp is SpawnResult,
            Phase::UrlSpawnShell { .. } => resp is SpawnResult,
            Phase::UrlSettle { .. } => resp is Paused,
            Phase::UrlForeground { .. } => resp is FoundWindow,
            Phase::UrlMatchForeground { .. } => resp is TitledWindows,
            Phase::UrlDiff { .. } => resp is TitledWindows,
            Phase::UrlFetchRect { .. } => resp is RectFetched,
            Phase::UrlApply { .. } => resp is Applied,
            Phase::DelaySleep => resp is Paused,
            Phase::Done { .. } => false,
        }
    }

    /// The call the machine asks for in its current phase.
    pub open spec fn spec_pending(self, c: OsCommand) -> bool {
        match self.phase {
            Phase::QueryExisting => c matches OsCommand::QueryWindowsOfExe { exe_name }
                && exe_name@ == self.exe_name@,
            Phase::AdjustFetch { windows, idx } => c matches OsCommand::FetchRect { hwnd }
                && hwnd == windows@[idx as int].hwnd,
            Phase::AdjustApply { windows, idx, rect } => c matches OsCommand::ApplyRect {
                hwnd,
                rect: r,
            } && hwnd == windows@[idx as int].hwnd && r == rect,
            Phase::SpawnNew => c matches OsCommand::SpawnProgram { path, args } && path@
                == self.action->Launch_path@ && (match self.action->Launch_args {
                Some(v) => args@ == v@,
                None => args@.len() == 0,
            }),
            Phase::LaunchSettle { .. } => c matches OsCommand::Pause { ms } && ms == 1000,
            Phase::LaunchPoll { pid, .. } => c matches OsCommand::QueryWindowByPid { pid: p }
                && p == pid,
            Phase::LaunchPollSleep { .. } => c matches OsCommand::Pause { ms } && ms == 200,
            Phase::LaunchApplyNew { hwnd } => c matches OsCommand::ApplyRect { hwnd: h, rect }
                && h == hwnd && rect == spec_config_of(self.action)->Some_0.spec_overlay(
                crate::geometry::spec_default_spawn_rect(),
            ),
            Phase::KillQuery => c is ListProcesses,
            Phase::KillSignal { pids, idx } => c matches OsCommand::SignalKill { pid } && pid
                == pids@[idx as int],
            Phase::FolderSnapshot => c matches OsCommand::QueryWindowsOfExe { exe_name }
                && exe_name@ == "explorer.exe"@,
            Phase::FolderOpen { .. } => c matches OsCommand::ShellOpen { path } && path@
                == self.action->OpenFolder_path@,
            Phase::FolderSettle { .. } => c matches OsCommand::Pause { ms } && ms == 800,
            Phase::FolderQueryAfter { .. } => c matches OsCommand::QueryWindowsOfExe { exe_name }
                && exe_name@ == "explorer.exe"@,
            Phase::FolderFetchRect { hwnd } => c matches OsCommand::FetchRect { hwnd: h } && h
                == hwnd,
            Phase::FolderApply { hwnd, rect } => c matches OsCommand::ApplyRect {
                hwnd: h,
                rect: r,
            } && h == hwnd && r == rect,
            Phase::UrlSnapshot { browser_idx, .. } => c matches OsCommand::QueryWindowsOfExe {
                exe_name,
            } && exe_name@ == spec_browser_name(browser_idx as int),
            Phase::UrlQueryDefault { .. } => c is QueryDefaultBrowserCommand,
            Phase::UrlSpawnDefault { browser_path, flag, .. } => c
                matches OsCommand::SpawnProgram { path, args } && path@ == browser_path@
                && args@.len() == 2 && args@[0]@ == flag@ && args@[1]@
                == self.action->OpenUrl_url@,
            Phase::UrlProbeCandidate { cand_idx, .. } => c matches OsCommand::ProbeFile { path }
                && path@ == spec_candidate_path(cand_idx as int),
            Phase::UrlSpawnCandidate { cand_idx, .. } => c matches OsCommand::SpawnProgram {
                path,
                args,
            } && path@ == spec_candidate_path(cand_idx as int) && args@.len() == 2 && args@[0]@
                == spec_candidate_flag(cand_idx as int) && args@[1]@
                == self.action->OpenUrl_url@,
            Phase::UrlSpawnShell { .. } => c matches OsCommand::SpawnProgram { path, args }
                && path@ == "cmd"@ && args@.len() == 4 && args@[0]@ == "/c"@ && args@[1]@
                == "start"@ && args@[2]@ == ""@ && args@[3]@ == self.action->OpenUrl_url@,
            Phase::UrlSettle { .. } => c matches OsCommand::Pause { ms } && ms == 1500,
            Phase::UrlForeground { .. } => c is QueryForeground,
            Phase::UrlMatchForeground { browser_idx, .. } => c
                matches OsCommand::QueryWindowsOfExe { exe_name } && exe_name@
                == spec_browser_name(browser_idx as int),
            Phase::UrlDiff { browser_idx, .. } => c matches OsCommand::QueryWindowsOfExe {
                exe_name,
            } && exe_name@ == spec_browser_name(browser_idx as int),
            Phase::UrlFetchRect { hwnd } => c matches OsCommand::FetchRect { hwnd: h } && h
                == hwnd,
            Phase::UrlApply { hwnd, rect } => c matches OsCommand::ApplyRect {
                hwnd: h,
                rect: r,
            } && h == hwnd && r == rect,
            Phase::DelaySleep => c matches OsCommand::Pause { ms } && ms == self.action->ms,
            Phase::Done { .. } => false,
        }
    }
}

/// The action finished reporting that an already-running instance was
/// adjusted.
pub open spec fn post_adjust_done(pre: ExecMachine, post: ExecMachine) -> bool {
    post.phase matches Phase::Done { outcome } && outcome
        matches ActionOutcome::AdjustedExisting { exe_name } && exe_name@ == pre.exe_name@
}

/// The action finished reporting a successful launch.
pub open spec fn post_launched_done(pre: ExecMachine, post: ExecMachine) -> bool {
    post.phase matches Phase::Done { outcome } && outcome matches ActionOutcome::Launched {
        path,
    } && path@ == pre.action->Launch_path@
}

/// The action finished reporting the folder as opened.
pub open spec fn post_folder_done(pre: ExecMachine, post: ExecMachine) -> bool {
    post.phase matches Phase::Done { outcome } && outcome matches ActionOutcome::OpenedFolder {
        path,
    } && path@ == pre.action->OpenFolder_path@
}

/// The action finished reporting the URL as opened.
pub open spec fn post_url_done(pre: ExecMachine, post: ExecMachine) -> bool {
    post.phase matches Phase::Done { outcome } && outcome matches ActionOutcome::OpenedUrl {
        url,
    } && url@ == pre.action->url@
}

/// The fallback pass starts at the first fixed install path.
pub open spec fn post_probe_first(before: Seq<i64>, post: ExecMachine) -> bool {
    post.phase matches Phase::UrlProbeCandidate { before: b, cand_idx } && b@ == before
        && cand_idx == 0
}

/// A browser accepted the URL: settle and resolve if geometry was requested,
/// else the action is finished.
pub open spec fn post_url_opened(pre: ExecMachine, before: Seq<i64>, post: ExecMachine) -> bool {
    if spec_config_of(pre.action) is Some {
        post.phase matches Phase::UrlSettle { before: b } && b@ == before
    } else {
        post_url_done(pre, post)
    }
}

/// The executor's transition relation: what `step` leaves behind for each
/// phase and response.
pub open spec fn step_rel(pre: ExecMachine, resp: OsResponse, post: ExecMachine) -> bool {
    &&& post.action == pre.action
    &&& post.exe_name == pre.exe_name
    &&& match pre.phase {
        Phase::QueryExisting => resp matches OsResponse::TitledWindows { windows } && {
            if windows@.len() == 0 {
                post.phase is SpawnNew
            } else if spec_config_of(pre.action) is Some {
                post.phase matches Phase::AdjustFetch { windows: w, idx } && w@ == windows@
                    && idx == 0
            } else {
                post_adjust_done(pre, post)
            }
        },
        Phase::AdjustFetch { windows, idx } => resp matches OsResponse::RectFetched { rect }
            && (match rect {
            Some(r) => post.phase matches Phase::AdjustApply { windows: w, idx: i, rect: rr }
                && w@ == windows@ && i == idx && rr == spec_config_of(
                pre.action,
            )->Some_0.spec_overlay(r),
            None => if idx + 1 < windows@.len() {
                post.phase matches Phase::AdjustFetch { windows: w, idx: i } && w@ == windows@
                    && i == idx + 1
            } else {
                post_adjust_done(pre, post)
            },
        }),
        Phase::AdjustApply { windows, idx, .. } => resp is Applied && (if idx + 1
            < windows@.len() {
            post.phase matches Phase::AdjustFetch { windows: w, idx: i } && w@ == windows@ && i
                == idx + 1
        } else {
            post_adjust_done(pre, post)
        }),
        Phase::SpawnNew => resp matches OsResponse::SpawnResult { result } && (match result {
            Ok(pid) => if spec_config_of(pre.action) is Some {
                post.phase matches Phase::LaunchSettle { pid: p } && p == pid
            } else {
                post_launched_done(pre, post)
            },
            Err(e) => post.phase matches Phase::Done { outcome } && outcome
                matches ActionOutcome::LaunchFailed { path, error } && path@
                == pre.action->Launch_path@ && error@ == e@,
        }),
        Phase::LaunchSettle { pid } => resp is Paused && (post.phase
            matches Phase::LaunchPoll { pid: p, attempt } && p == pid && attempt == 0),
        Phase::LaunchPoll { pid, attempt } => resp matches OsResponse::FoundWindow { hwnd } && (
        match hwnd {
            Some(h) => post.phase matches Phase::LaunchApplyNew { hwnd: hh } && hh == h,
            None => post.phase matches Phase::LaunchPollSleep { pid: p, attempt: a } && p == pid
                && a == attempt,
        }),
        Phase::LaunchPollSleep { pid, attempt } => resp is Paused && (if attempt + 1 < 10 {
            post.phase matches Phase::LaunchPoll { pid: p, attempt: a } && p == pid && a
                == attempt + 1
        } else {
            post_launched_done(pre, post)
        }),
        Phase::LaunchApplyNew { .. } => resp is Applied && post_launched_done(pre, post),
        Phase::KillQuery => resp matches OsResponse::Processes { list } && {
            let pids = spec_matching_pids(list@, pre.action->process_name@);
            if pids.len() == 0 {
                post.phase matches Phase::Done { outcome } && outcome
                    matches ActionOutcome::ProcessNotFound { process_name } && process_name@
                    == pre.action->process_name@
            } else {
                post.phase matches Phase::KillSignal { pids: p, idx } && p@ == pids && idx == 0
            }
        },
        Phase::KillSignal { pids, idx } => resp is Signalled && (if idx + 1 < pids@.len() {
            post.phase matches Phase::KillSignal { pids: p, idx: i } && p@ == pids@ && i == idx
                + 1
        } else {
            post.phase matches Phase::Done { outcome } && outcome
                matches ActionOutcome::Killed { count, process_name } && count == pids@.len()
                && process_name@ == pre.action->process_name@
        }),
        Phase::FolderSnapshot => resp matches OsResponse::TitledWindows { windows }
            && post.phase matches Phase::FolderOpen { before } && before@ == spec_handles(
            windows@,
        ),
        Phase::FolderOpen { before } => resp matches OsResponse::ShellOpened { result } && (
        match result {
            Ok(_) => if spec_config_of(pre.action) is Some {
                post.phase matches Phase::FolderSettle { before: b } && b@ == before@
            } else {
                post_folder_done(pre, post)
            },
            Err(e) => post.phase matches Phase::Done { outcome } && outcome
                matches ActionOutcome::FolderOpenFailed { path, error } && path@
                == pre.action->OpenFolder_path@ && error@ == e@,
        }),
        Phase::FolderSettle { before } => resp is Paused && (post.phase
            matches Phase::FolderQueryAfter { before: b } && b@ == before@),
        Phase::FolderQueryAfter { before } => resp matches OsResponse::TitledWindows { windows }
            && {
            let by_diff = spec_first_new(before@, windows@);
            let target = if by_diff is Some {
                by_diff
            } else {
                spec_first_title_match(
                    windows@,
                    spec_file_name(pre.action->OpenFolder_path@),
                )
            };
            match target {
                Some(h) => post.phase matches Phase::FolderFetchRect { hwnd } && hwnd == h,
                None => post_folder_done(pre, post),
            }
        },
        Phase::FolderFetchRect { hwnd } => resp matches OsResponse::RectFetched { rect } && (
        match rect {
            Some(r) => post.phase matches Phase::FolderApply { hwnd: h, rect: rr } && h == hwnd
                && rr == spec_config_of(pre.action)->Some_0.spec_overlay(r),
            None => post_folder_done(pre, post),
        }),
        Phase::FolderApply { .. } => resp is Applied && post_folder_done(pre, post),
        Phase::UrlSnapshot { browser_idx, before } => resp matches OsResponse::TitledWindows {
            windows,
        } && {
            let acc = before@ + spec_handles(windows@);
            if browser_idx + 1 < 5 {
                post.phase matches Phase::UrlSnapshot { browser_idx: i, before: b } && i
                    == browser_idx + 1 && b@ == acc
            } else {
                post.phase matches Phase::UrlQueryDefault { before: b } && b@ == acc
            }
        },
        Phase::UrlQueryDefault { before } => resp matches OsResponse::BrowserCommand { choice }
            && (match choice {
            Some(ch) => match spec_extract_command_path(ch.command@) {
                Some(p) => post.phase matches Phase::UrlSpawnDefault {
                    before: b,
                    browser_path,
                    flag,
                } && b@ == before@ && browser_path@ == p && flag@ == spec_new_window_flag(
                    spec_file_name(p),
                ),
                None => post_probe_first(before@, post),
            },
            None => post_probe_first(before@, post),
        }),
        Phase::UrlSpawnDefault { before, .. } => resp matches OsResponse::SpawnResult { result }
            && (match result {
            Ok(_) => post_url_opened(pre, before@, post),
            Err(_) => post_probe_first(before@, post),
        }),
        Phase::UrlProbeCandidate { before, cand_idx } => resp matches OsResponse::FileExists {
            exists,
        } && (if exists {
            post.phase matches Phase::UrlSpawnCandidate { before: b, cand_idx: i } && b@
                == before@ && i == cand_idx
        } else if cand_idx + 1 < 6 {
            post.phase matches Phase::UrlProbeCandidate { before: b, cand_idx: i } && b@
                == before@ && i == cand_idx + 1
        } else {
            post.phase matches Phase::UrlSpawnShell { before: b } && b@ == before@
        }),
        Phase::UrlSpawnCandidate { before, cand_idx } => resp matches OsResponse::SpawnResult {
            result,
        } && (match result {
            Ok(_) => post_url_opened(pre, before@, post),
            Err(_) => if cand_idx + 1 < 6 {
                post.phase matches Phase::UrlProbeCandidate { before: b, cand_idx: i } && b@
                    == before@ && i == cand_idx + 1
            } else {
                post.phase matches Phase::UrlSpawnShell { before: b } && b@ == before@
            },
        }),
        Phase::UrlSpawnShell { before } => resp matches OsResponse::SpawnResult { result } && (
        match result {
            Ok(_) => post_url_opened(pre, before@, post),
            Err(e) => post.phase matches Phase::Done { outcome } && outcome
                matches ActionOutcome::UrlOpenFailed { url, error } && url@
                == pre.action->url@ && error@ == e@,
        }),
        Phase::UrlSettle { before } => resp is Paused && (post.phase
            matches Phase::UrlForeground { before: b } && b@ == before@),
        Phase::UrlForeground { before } => resp matches OsResponse::FoundWindow { hwnd } && (
        match hwnd {
            Some(fg) => post.phase matches Phase::UrlMatchForeground {
                before: b,
                fg: f,
                browser_idx: i,
            } && b@ == before@ && f == fg && i == 0,
            None => post.phase matches Phase::UrlDiff { before: b, browser_idx: i } && b@
                == before@ && i == 0,
        }),
        Phase::UrlMatchForeground { before, fg, browser_idx } => resp
            matches OsResponse::TitledWindows { windows } && (if spec_handles(
            windows@,
        ).contains(fg) {
            post.phase matches Phase::UrlFetchRect { hwnd } && hwnd == fg
        } else if browser_idx + 1 < 5 {
            post.phase matches Phase::UrlMatchForeground { before: b, fg: f, browser_idx: i }
                && b@ == before@ && f == fg && i == browser_idx + 1
        } else {
            post.phase matches Phase::UrlDiff { before: b, browser_idx: i } && b@ == before@
                && i == 0
        }),
        Phase::UrlDiff { before, browser_idx } => resp matches OsResponse::TitledWindows {
            windows,
        } && (match spec_first_new(before@, windows@) {
            Some(h) => post.phase matches Phase::UrlFetchRect { hwnd } && hwnd == h,
            None => if browser_idx + 1 < 5 {
                post.phase matches Phase::UrlDiff { before: b, browser_idx: i } && b@ == before@
                    && i == browser_idx + 1
            } else {
                post_url_done(pre, post)
            },
        }),
        Phase::UrlFetchRect { hwnd } => resp matches OsResponse::RectFetched { rect } && (
        match rect {
            Some(r) => post.phase matches Phase::UrlApply { hwnd: h, rect: rr } && h == hwnd
                && rr == spec_config_of(pre.action)->Some_0.spec_overlay(r),
            None => post_url_done(pre, post),
        }),
        Phase::UrlApply { .. } => resp is Applied && post_url_done(pre, post),
        Phase::DelaySleep => resp is Paused && (post.phase matches Phase::Done { outcome }
            && outcome matches ActionOutcome::Delayed { ms } && ms == pre.action->ms),
        Phase::Done { .. } => false,
    }
}

impl ExecMachine {
    /// Begins executing `action`. A launch first looks for existing windows;
    /// a kill reads the process list; an open snapshots windows only when
    /// geometry was requested; a delay just pauses.
    pub fn start(action: Action) -> (m: ExecMachine)
        ensures
            m.wf(),
            m.action == action,
            match action {
                Action::Launch { .. } => m.phase is QueryExisting,
                Action::Kill { .. } => m.phase is KillQuery,
                Action::OpenFolder { .. } => if spec_config_of(action) is Some {
                    m.phase is FolderSnapshot
                } else {
                    m.phase matches Phase::FolderOpen { before } && before@.len() == 0
                },
                Action::OpenUrl { .. } => if spec_config_of(action) is Some {
                    m.phase matches Phase::UrlSnapshot { browser_idx, before } && browser_idx
                        == 0 && before@.len() == 0
                } else {
                    m.phase matches Phase::UrlQueryDefault { before } && before@.len() == 0
                },
                Action::Delay { .. } => m.phase is DelaySleep,
            },
            (action is OpenFolder || action is OpenUrl) && spec_config_of(action) is None
                ==> spec_open_without_geometry(m),
    {
        let exe_name = match &action {
            Action::Launch { path, .. } => file_name_of(path.as_str()),
            _ => String::new(),
        };
        let phase = match &action {
            Action::Launch { .. } => Phase::QueryExisting,
            Action::Kill { .. } => Phase::KillQuery,
            Action::OpenFolder { window_config, .. } => match window_config {
                Some(_) => Phase::FolderSnapshot,
                None => Phase::FolderOpen { before: Vec::new() },
            },
            Action::OpenUrl { window_config, .. } => match window_config {
                Some(_) => Phase::UrlSnapshot { browser_idx: 0, before: Vec::new() },
                None => Phase::UrlQueryDefault { before: Vec::new() },
            },
            Action::Delay { .. } => Phase::DelaySleep,
        };
        ExecMachine { action, exe_name, phase }
    }

    /// Whether the action has finished.
    pub fn is_done(&self) -> (r: bool)
        ensures
            r == self.spec_done(),
    {
        match &self.phase {
            Phase::Done { .. } => true,
            _ => false,
        }
    }

    /// The finished action's outcome.
    pub fn outcome(&self) -> (o: &ActionOutcome)
        requires
            self.spec_done(),
        ensures
            self.phase matches Phase::Done { outcome } && *o == outcome,
    {
        match &self.phase {
            Phase::Done { outcome } => outcome,
            _ => vstd::pervasive::unreached(),
        }
    }

    /// The next call to make, or nothing when the action has finished.
    pub fn pending(&self) -> (c: Option<OsCommand>)
        requires
            self.wf(),
        ensures
            c is Some <==> !self.spec_done(),
            c matches Some(cmd) ==> self.spec_pending(cmd),
    {
        match &self.phase {
            Phase::QueryExisting => Some(
                OsCommand::QueryWindowsOfExe { exe_name: self.exe_name.clone() },
            ),
            Phase::AdjustFetch { windows, idx } => Some(
                OsCommand::FetchRect { hwnd: windows[*idx].hwnd },
            ),
            Phase::AdjustApply { windows, idx, rect } => Some(
                OsCommand::ApplyRect { hwnd: windows[*idx].hwnd, rect: *rect },
            ),
            Phase::SpawnNew => match &self.action {
                Action::Launch { path, args, .. } => {
                    let a = match args {
                        Some(v) => clone_string_vec(v),
                        None => Vec::new(),
                    };
                    Some(OsCommand::SpawnProgram { path: path.clone(), args: a })
                },
                _ => vstd::pervasive::unreached(),
            },
            Phase::LaunchSettle { .. } => Some(OsCommand::Pause { ms: 1000 }),
            Phase::LaunchPoll { pid, .. } => Some(OsCommand::QueryWindowByPid { pid: *pid }),
            Phase::LaunchPollSleep { .. } => Some(OsCommand::Pause { ms: 200 }),
            Phase::LaunchApplyNew { hwnd } => match config_of(&self.action) {
                Some(c) => Some(
                    OsCommand::ApplyRect { hwnd: *hwnd, rect: c.overlay(default_spawn_rect()) },
                ),
                None => vstd::pervasive::unreached(),
            },
            Phase::KillQuery => Some(OsCommand::ListProcesses),
            Phase::KillSignal { pids, idx } => Some(OsCommand::SignalKill { pid: pids[*idx] }),
            Phase::FolderSnapshot => Some(
                OsCommand::QueryWindowsOfExe { exe_name: String::from_str("explorer.exe") },
            ),
            Phase::FolderOpen { .. } => match &self.action {
                Action::OpenFolder { path, .. } => Some(
                    OsCommand::ShellOpen { path: path.clone() },
                ),
                _ => vstd::pervasive::unreached(),
            },
            Phase::FolderSettle { .. } => Some(OsCommand::Pause { ms: 800 }),
            Phase::FolderQueryAfter { .. } => Some(
                OsCommand::QueryWindowsOfExe { exe_name: String::from_str("explorer.exe") },
            ),
            Phase::FolderFetchRect { hwnd } => Some(OsCommand::FetchRect { hwnd: *hwnd }),
            Phase::FolderApply { hwnd, rect } => Some(
                OsCommand::ApplyRect { hwnd: *hwnd, rect: *rect },
            ),
            Phase::UrlSnapshot { browser_idx, .. } => Some(
                OsCommand::QueryWindowsOfExe {
                    exe_name: String::from_str(browser_name(*browser_idx)),
                },
            ),
            Phase::UrlQueryDefault { .. } => Some(OsCommand::QueryDefaultBrowserCommand),
            Phase::UrlSpawnDefault { browser_path, flag, .. } => match &self.action {
                Action::OpenUrl { url, .. } => {
                    let mut a: Vec<String> = Vec::new();
                    a.push(flag.clone());
                    a.push(url.clone());
                    Some(OsCommand::SpawnProgram { path: browser_path.clone(), args: a })
                },
                _ => vstd::pervasive::unreached(),
            },
            Phase::UrlProbeCandidate { cand_idx, .. } => Some(
                OsCommand::ProbeFile { path: String::from_str(candidate_path(*cand_idx)) },
            ),
            Phase::UrlSpawnCandidate { cand_idx, .. } => match &self.action {
                Action::OpenUrl { url, .. } => {
                    let mut a: Vec<String> = Vec::new();
                    a.push(String::from_str(candidate_flag(*cand_idx)));
                    a.push(url.clone());
                    Some(
                        OsCommand::SpawnProgram {
                            path: String::from_str(candidate_path(*cand_idx)),
                            args: a,
                        },
                    )
                },
                _ => vstd::pervasive::unreached(),
            },
            Phase::UrlSpawnShell { .. } => match &self.action {
                Action::OpenUrl { url, .. } => {
                    let mut a: Vec<String> = Vec::new();
                    a.push(String::from_str("/c"));
                    a.push(String::from_str("start"));
                    a.push(String::from_str(""));
                    a.push(url.clone());
                    Some(OsCommand::SpawnProgram { path: String::from_str("cmd"), args: a })
                },
                _ => vstd::pervasive::unreached(),
            },
            Phase::UrlSettle { .. } => Some(OsCommand::Pause { ms: 1500 }),
            Phase::UrlForeground { .. } => Some(OsCommand::QueryForeground),
            Phase::UrlMatchForeground { browser_idx, .. } => Some(
                OsCommand::QueryWindowsOfExe {
                    exe_name: String::from_str(browser_name(*browser_idx)),
                },
            ),
            Phase::UrlDiff { browser_idx, .. } => Some(
                OsCommand::QueryWindowsOfExe {
                    exe_name: String::from_str(browser_name(*browser_idx)),
                },
            ),
            Phase::UrlFetchRect { hwnd } => Some(OsCommand::FetchRect { hwnd: *hwnd }),
            Phase::UrlApply { hwnd, rect } => Some(
                OsCommand::ApplyRect { hwnd: *hwnd, rect: *rect },
            ),
            Phase::DelaySleep => match &self.action {
                Action::Delay { ms } => Some(OsCommand::Pause { ms: *ms }),
                _ => vstd::pervasive::unreached(),
            },
            Phase::Done { .. } => None,
        }
    }

    /// Consumes the result of the pending call and decides what follows, as
    /// `step_rel` describes.
    pub fn step(self, resp: OsResponse) -> (post: ExecMachine)
        requires
            self.wf(),
            self.accepts(resp),
        ensures
            step_rel(self, resp, post),
            post.wf(),
    {
        let ghost pre = self;
        let ExecMachine { action, exe_name, phase } = self;
        let next: Phase = match phase {
            Phase::QueryExisting => match resp {
                OsResponse::TitledWindows { windows } => {
                    if windows.len() == 0 {
                        Phase::SpawnNew
                    } else {
                        match config_of(&action) {
                            Some(_) => Phase::AdjustFetch { windows, idx: 0 },
                            None => Phase::Done {
                                outcome: ActionOutcome::AdjustedExisting {
                                    exe_name: exe_name.clone(),
                                },
                            },
                        }
                    }
                },
                _ => vstd::pervasive::unreached(),
            },
            Phase::AdjustFetch { windows, idx } => match resp {
                OsResponse::RectFetched { rect } => match rect {
                    Some(r) => {
                        let c = match config_of(&action) {
                            Some(c) => c,
                            None => vstd::pervasive::unreached(),
                        };
                        let rr = c.overlay(r);
                        Phase::AdjustApply { windows, idx, rect: rr }
                    },
                    None => {
                        let n = windows.len();
                        proof {
                            assert(idx < windows@.len());
                        }
                        if idx + 1 < n {
                            Phase::AdjustFetch { windows, idx: idx + 1 }
                        } else {
                            Phase::Done {
                                outcome: ActionOutcome::AdjustedExisting {
                                    exe_name: exe_name.clone(),
                                },
                            }
                        }
                    },
                },
                _ => vstd::pervasive::unreached(),
            },
            Phase::AdjustApply { windows, idx, .. } => match resp {
                OsResponse::Applied => {
                    let n = windows.len();
                    proof {
                        assert(idx < windows@.len());
                    }
                    if idx + 1 < n {
                        Phase::AdjustFetch { windows, idx: idx + 1 }
                    } else {
                        Phase::Done {
                            outcome: ActionOutcome::AdjustedExisting {
                                exe_name: exe_name.clone(),
                            },
                        }
                    }
                },
                _ => vstd::pervasive::unreached(),
            },
            Phase::SpawnNew => match resp {
                OsResponse::SpawnResult { result } => {
                    let path = match &action {
                        Action::Launch { path, .. } => path.clone(),
                        _ => vstd::pervasive::unreached(),
                    };
                    match result {
                        Ok(pid) => match config_of(&action) {
                            Some(_) => Phase::LaunchSettle { pid },
                            None => Phase::Done { outcome: ActionOutcome::Launched { path } },
                        },
                        Err(e) => Phase::Done {
                            outcome: ActionOutcome::LaunchFailed { path, error: e },
                        },
                    }
                },
                _ => vstd::pervasive::unreached(),
            },
            Phase::LaunchSettle { pid } => match resp {
                OsResponse::Paused => Phase::LaunchPoll { pid, attempt: 0 },
                _ => vstd::pervasive::unreached(),
            },
            Phase::LaunchPoll { pid, attempt } => match resp {
                OsResponse::FoundWindow { hwnd } => match hwnd {
                    Some(h) => Phase::LaunchApplyNew { hwnd: h },
                    None => Phase::LaunchPollSleep { pid, attempt },
                },
                _ => vstd::pervasive::unreached(),
            },
            Phase::LaunchPollSleep { pid, attempt } => match resp {
                OsResponse::Paused => {
                    if attempt + 1 < 10 {
                        Phase::LaunchPoll { pid, attempt: attempt + 1 }
                    } else {
                        let path = match &action {
                            Action::Launch { path, .. } => path.clone(),
                            _ => vstd::pervasive::unreached(),
                        };
                        Phase::Done { outcome: ActionOutcome::Launched { path } }
                    }
                },
                _ => vstd::pervasive::unreached(),
            },
            Phase::LaunchApplyNew { .. } => match resp {
                OsResponse::Applied => {
                    let path = match &action {
                        Action::Launch { path, .. } => path.clone(),
                        _ => vstd::pervasive::unreached(),
                    };
                    Phase::Done { outcome: ActionOutcome::Launched { path } }
                },
                _ => vstd::pervasive::unreached(),
            },
            Phase::KillQuery => match resp {
                OsResponse::Processes { list } => {
                    let kname = match &action {
                        Action::Kill { process_name } => process_name.clone(),
                        _ => vstd::pervasive::unreached(),
                    };
                    let pids = matching_pids(&list, kname.as_str());
                    if pids.len() == 0 {
                        Phase::Done {
                            outcome: ActionOutcome::ProcessNotFound { process_name: kname },
                        }
                    } else {
                        Phase::KillSignal { pids, idx: 0 }
                    }
                },
                _ => vstd::pervasive::unreached(),
            },
            Phase::KillSignal { pids, idx } => match resp {
                OsResponse::Signalled => {
                    let n = pids.len();
                    proof {
                        assert(idx < pids@.len());
                    }
                    if idx + 1 < n {
                        Phase::KillSignal { pids, idx: idx + 1 }
                    } else {
                        let kname = match &action {
                            Action::Kill { process_name } => process_name.clone(),
                            _ => vstd::pervasive::unreached(),
                        };
                        let count: u64 = pids.len() as u64;
                        Phase::Done {
                            outcome: ActionOutcome::Killed { count, process_name: kname },
                        }
                    }
                },
                _ => vstd::pervasive::unreached(),
            },
            Phase::FolderSnapshot => match resp {
                OsResponse::TitledWindows { windows } => Phase::FolderOpen {
                    before: handles_of(&windows),
                },
                _ => vstd::pervasive::unreached(),
            },
            Phase::FolderOpen { before } => match resp {
                OsResponse::ShellOpened { result } => {
                    let path = match &action {
                        Action::OpenFolder { path, .. } => path.clone(),
                        _ => vstd::pervasive::unreached(),
                    };
                    match result {
                        Ok(_) => match config_of(&action) {
                            Some(_) => Phase::FolderSettle { before },
                            None => Phase::Done {
                                outcome: ActionOutcome::OpenedFolder { path },
                            },
                        },
                        Err(e) => Phase::Done {
                            outcome: ActionOutcome::FolderOpenFailed { path, error: e },
                        },
                    }
                },
                _ => vstd::pervasive::unreached(),
            },
            Phase::FolderSettle { before } => match resp {
                OsResponse::Paused => Phase::FolderQueryAfter { before },
                _ => vstd::pervasive::unreached(),
            },
            Phase::FolderQueryAfter { before } => match resp {
                OsResponse::TitledWindows { windows } => {
                    let path = match &action {
                        Action::OpenFolder { path, .. } => path.clone(),
                        _ => vstd::pervasive::unreached(),
                    };
                    let by_diff = first_new_window(&before, &windows);
                    let target = match by_diff {
                        Some(h) => Some(h),
                        None => {
                            let folder_name = file_name_of(path.as_str());
                            find_by_title_contains(&windows, folder_name.as_str())
                        },
                    };
                    match target {
                        Some(h) => Phase::FolderFetchRect { hwnd: h },
                        None => Phase::Done { outcome: ActionOutcome::OpenedFolder { path } },
                    }
                },
                _ => vstd::pervasive::unreached(),
            },
            Phase::FolderFetchRect { hwnd } => match resp {
                OsResponse::RectFetched { rect } => match rect {
                    Some(r) => {
                        let c = match config_of(&action) {
                            Some(c) => c,
                            None => vstd::pervasive::unreached(),
                        };
                        Phase::FolderApply { hwnd, rect: c.overlay(r) }
                    },
                    None => {
                        let path = match &action {
                            Action::OpenFolder { path, .. } => path.clone(),
                            _ => vstd::pervasive::unreached(),
                        };
                        Phase::Done { outcome: ActionOutcome::OpenedFolder { path } }
                    },
                },
                _ => vstd::pervasive::unreached(),
            },
            Phase::FolderApply { .. } => match resp {
                OsResponse::Applied => {
                    let path = match &action {
                        Action::OpenFolder { path, .. } => path.clone(),
                        _ => vstd::pervasive::unreached(),
                    };
                    Phase::Done { outcome: ActionOutcome::OpenedFolder { path } }
                },
                _ => vstd::pervasive::unreached(),
            },
            Phase::UrlSnapshot { browser_idx, before } => match resp {
                OsResponse::TitledWindows { windows } => {
                    let hs = handles_of(&windows);
                    let mut acc = before;
                    let ghost acc0 = acc@;
                    let mut k: usize = 0;
                    proof {
                        assert(acc@ =~= acc0 + hs@.take(0));
                    }
                    while k < hs.len()
                        invariant
                            0 <= k <= hs@.len(),
                            acc@ == acc0 + hs@.take(k as int),
                        decreases hs@.len() - k,
                    {
                        proof {
                            assert(acc0 + hs@.take(k + 1) =~= (acc0 + hs@.take(
                                k as int,
                            )).push(hs@[k as int]));
                        }
                        acc.push(hs[k]);
                        k += 1;
                    }
                    proof {
                        assert(hs@.take(hs@.len() as int) =~= hs@);
                    }
                    if browser_idx + 1 < 5 {
                        Phase::UrlSnapshot { browser_idx: browser_idx + 1, before: acc }
                    } else {
                        Phase::UrlQueryDefault { before: acc }
                    }
                },
                _ => vstd::pervasive::unreached(),
            },
            Phase::UrlQueryDefault { before } => match resp {
                OsResponse::BrowserCommand { choice } => match choice {
                    Some(ch) => match extract_command_path(ch.command.as_str()) {
                        Some(p) => {
                            let exe = file_name_of(p.as_str());
                            let flag = new_window_flag(exe.as_str());
                            Phase::UrlSpawnDefault {
                                before,
                                browser_path: p,
                                flag: String::from_str(flag),
                            }
                        },
                        None => Phase::UrlProbeCandidate { before, cand_idx: 0 },
                    },
                    None => Phase::UrlProbeCandidate { before, cand_idx: 0 },
                },
                _ => vstd::pervasive::unreached(),
            },
            Phase::UrlSpawnDefault { before, .. } => match resp {
                OsResponse::SpawnResult { result } => match result {
                    Ok(_) => match config_of(&action) {
                        Some(_) => Phase::UrlSettle { before },
                        None => {
                            let url = match &action {
                                Action::OpenUrl { url, .. } => url.clone(),
                                _ => vstd::pervasive::unreached(),
                            };
                            Phase::Done { outcome: ActionOutcome::OpenedUrl { url } }
                        },
                    },
                    Err(_) => Phase::UrlProbeCandidate { before, cand_idx: 0 },
                },
                _ => vstd::pervasive::unreached(),
            },
            Phase::UrlProbeCandidate { before, cand_idx } => match resp {
                OsResponse::FileExists { exists } => {
                    if exists {
                        Phase::UrlSpawnCandidate { before, cand_idx }
                    } else if cand_idx + 1 < 6 {
                        Phase::UrlProbeCandidate { before, cand_idx: cand_idx + 1 }
                    } else {
                        Phase::UrlSpawnShell { before }
                    }
                },
                _ => vstd::pervasive::unreached(),
            },
            Phase::UrlSpawnCandidate { before, cand_idx } => match resp {
                OsResponse::SpawnResult { result } => match result {
                    Ok(_) => match config_of(&action) {
                        Some(_) => Phase::UrlSettle { before },
                        None => {
                            let url = match &action {
                                Action::OpenUrl { url, .. } => url.clone(),
                                _ => vstd::pervasive::unreached(),
                            };
                            Phase::Done { outcome: ActionOutcome::OpenedUrl { url } }
                        },
                    },
                    Err(_) => {
                        if cand_idx + 1 < 6 {
                            Phase::UrlProbeCandidate { before, cand_idx: cand_idx + 1 }
                        } else {
                            Phase::UrlSpawnShell { before }
                        }
                    },
                },
                _ => vstd::pervasive::unreached(),
            },
            Phase::UrlSpawnShell { before } => match resp {
                OsResponse::SpawnResult { result } => {
                    let url = match &action {
                        Action::OpenUrl { url, .. } => url.clone(),
                        _ => vstd::pervasive::unreached(),
                    };
                    match result {
                        Ok(_) => match config_of(&action) {
                            Some(_) => Phase::UrlSettle { before },
                            None => Phase::Done { outcome: ActionOutcome::OpenedUrl { url } },
                        },
                        Err(e) => Phase::Done {
                            outcome: ActionOutcome::UrlOpenFailed { url, error: e },
                        },
                    }
                },
                _ => vstd::pervasive::unreached(),
            },
            Phase::UrlSettle { before } => match resp {
                OsResponse::Paused => Phase::UrlForeground { before },
                _ => vstd::pervasive::unreached(),
            },
            Phase::UrlForeground { before } => match resp {
                OsResponse::FoundWindow { hwnd } => match hwnd {
                    Some(fg) => Phase::UrlMatchForeground { before, fg, browser_idx: 0 },
                    None => Phase::UrlDiff { before, browser_idx: 0 },
                },
                _ => vstd::pervasive::unreached(),
            },
            Phase::UrlMatchForeground { before, fg, browser_idx } => match resp {
                OsResponse::TitledWindows { windows } => {
                    let hs = handles_of(&windows);
                    if vec_contains_i64(&hs, fg) {
                        Phase::UrlFetchRect { hwnd: fg }
                    } else if browser_idx + 1 < 5 {
                        Phase::UrlMatchForeground { before, fg, browser_idx: browser_idx + 1 }
                    } else {
                        Phase::UrlDiff { before, browser_idx: 0 }
                    }
                },
                _ => vstd::pervasive::unreached(),
            },
            Phase::UrlDiff { before, browser_idx } => match resp {
                OsResponse::TitledWindows { windows } => {
                    match first_new_window(&before, &windows) {
                        Some(h) => Phase::UrlFetchRect { hwnd: h },
                        None => {
                            if browser_idx + 1 < 5 {
                                Phase::UrlDiff { before, browser_idx: browser_idx + 1 }
                            } else {
                                let url = match &action {
                                    Action::OpenUrl { url, .. } => url.clone(),
                                    _ => vstd::pervasive::unreached(),
                                };
                                Phase::Done { outcome: ActionOutcome::OpenedUrl { url } }
                            }
                        },
                    }
                },
                _ => vstd::pervasive::unreached(),
            },
            Phase::UrlFetchRect { hwnd } => match resp {
                OsResponse::RectFetched { rect } => match rect {
                    Some(r) => {
                        let c = match config_of(&action) {
                            Some(c) => c,
                            None => vstd::pervasive::unreached(),
                        };
                        Phase::UrlApply { hwnd, rect: c.overlay(r) }
                    },
                    None => {
                        let url = match &action {
                            Action::OpenUrl { url, .. } => url.clone(),
                            _ => vstd::pervasive::unreached(),
                        };
                        Phase::Done { outcome: ActionOutcome::OpenedUrl { url } }
                    },
                },
                _ => vstd::pervasive::unreached(),
            },
            Phase::UrlApply { .. } => match resp {
                OsResponse::Applied => {
                    let url = match &action {
                        Action::OpenUrl { url, .. } => url.clone(),
                        _ => vstd::pervasive::unreached(),
                    };
                    Phase::Done { outcome: ActionOutcome::OpenedUrl { url } }
                },
                _ => vstd::pervasive::unreached(),
            },
            Phase::DelaySleep => match resp {
                OsResponse::Paused => {
                    let ms = match &action {
                        Action::Delay { ms } => *ms,
                        _ => vstd::pervasive::unreached(),
                    };
                    Phase::Done { outcome: ActionOutcome::Delayed { ms } }
                },
                _ => vstd::pervasive::unreached(),
            },
            Phase::Done { .. } => vstd::pervasive::unreached(),
        };
        ExecMachine { action, exe_name, phase: next }
    }
}

/// The launch found an already-running instance and is only adjusting its
/// windows (or has finished).
pub open spec fn spec_adjust_only(m: ExecMachine) -> bool {
    match m.phase {
        Phase::AdjustFetch { .. } => true,
        Phase::AdjustApply { .. } => true,
        Phase::Done { .. } => true,
        _ => false,
    }
}

/// A launch whose executable already has a visible window enters the
/// adjusting phases straight away: it never spawns.
pub proof fn lemma_existing_windows_enter_adjust(
    pre: ExecMachine,
    resp: OsResponse,
    post: ExecMachine,
)
    requires
        pre.phase is QueryExisting,
        resp matches OsResponse::TitledWindows { windows } && windows@.len() > 0,
        step_rel(pre, resp, post),
    ensures
        spec_adjust_only(post),
{
}

/// Once the executor is only adjusting existing windows, every further step
/// keeps it so: a second process instance is never spawned.
pub proof fn lemma_adjust_only_preserved(pre: ExecMachine, resp: OsResponse, post: ExecMachine)
    requires
        spec_adjust_only(pre),
        step_rel(pre, resp, post),
    ensures
        spec_adjust_only(post),
{
}

/// While only adjusting existing windows, the pending call is never a spawn.
pub proof fn lemma_adjust_only_never_spawns(m: ExecMachine, c: OsCommand)
    requires
        spec_adjust_only(m),
        m.spec_pending(c),
    ensures
        !(c is SpawnProgram),
{
}

/// The window-acquisition poll is bounded: a well-formed machine never
/// holds a poll counter of ten or more, and `step_rel` ends the search (the
/// launch still reports success) once the last permitted poll has failed.
pub proof fn lemma_poll_bounded(m: ExecMachine)
    requires
        m.wf(),
    ensures
        m.phase matches Phase::LaunchPoll { attempt, .. } ==> attempt < 10,
        m.phase matches Phase::LaunchPollSleep { attempt, .. } ==> attempt < 10,
{
}

/// A kill keeps the processes it matched: the matched ids are fixed the
/// moment the process list arrives, every further step carries them
/// unchanged, and the action can only end by reporting success with exactly
/// that count — so a kill that matched `n >= 1` processes reports `n`.
pub proof fn lemma_kill_reports_matched_count(
    pre: ExecMachine,
    resp: OsResponse,
    post: ExecMachine,
)
    requires
        step_rel(pre, resp, post),
    ensures
        (pre.phase is KillQuery && resp is Processes && spec_matching_pids(
            resp->list@,
            pre.action->process_name@,
        ).len() > 0) ==> (post.phase matches Phase::KillSignal { pids, idx } && pids@
            == spec_matching_pids(resp->list@, pre.action->process_name@) && idx == 0),
        pre.phase matches Phase::KillSignal { pids, idx } ==> ({
            ||| (post.phase matches Phase::KillSignal { pids: p2, idx: i2 } && p2@ == pids@)
            ||| (post.phase matches Phase::Done { outcome } && outcome
                matches ActionOutcome::Killed { count, process_name } && count == pids@.len()
                && process_name@ == pre.action->process_name@)
        }),
{
}

/// An open action that requested no geometry: only the open itself (and, for
/// a URL, the browser-launch chain) remains; no snapshot was taken.
pub open spec fn spec_open_without_geometry(m: ExecMachine) -> bool {
    &&& spec_config_of(m.action) is None
    &&& (m.action is OpenFolder || m.action is OpenUrl)
    &&& match m.phase {
        Phase::FolderOpen { .. } => true,
        Phase::UrlQueryDefault { .. } => true,
        Phase::UrlSpawnDefault { .. } => true,
        Phase::UrlProbeCandidate { .. } => true,
        Phase::UrlSpawnCandidate { .. } => true,
        Phase::UrlSpawnShell { .. } => true,
        Phase::Done { .. } => true,
        _ => false,
    }
}

/// An open action without geometry stays without geometry work: no step can
/// reach a settle pause or a resolution phase.
pub proof fn lemma_no_geometry_preserved(pre: ExecMachine, resp: OsResponse, post: ExecMachine)
    requires
        spec_open_without_geometry(pre),
        step_rel(pre, resp, post),
    ensures
        spec_open_without_geometry(post),
{
}

/// An open action without geometry never asks for a pause, a window query,
/// a rectangle, or a window move: the settle delay and the resolution logic
/// are not triggered.
pub proof fn lemma_no_geometry_no_settle_or_resolution(m: ExecMachine, c: OsCommand)
    requires
        spec_open_without_geometry(m),
        m.spec_pending(c),
    ensures
        !(c is Pause),
        !(c is QueryWindowsOfExe),
        !(c is QueryWindowByPid),
        !(c is QueryForeground),
        !(c is FetchRect),
        !(c is ApplyRect),
{
}

} // verus!
