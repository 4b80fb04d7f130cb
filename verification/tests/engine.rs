//! Exercises the sequencer, the executor machine, the window resolver and
//! the text helpers on concrete values.

use advanced_shortcut::data::{parse_cli_shortcut_request, Action, ProcessInfo};
use advanced_shortcut::executor::{BrowserChoice, ExecMachine, OsCommand, OsResponse};
use advanced_shortcut::geometry::{Rect, WindowConfig};
use advanced_shortcut::outcome::{render_outcome, ActionOutcome};
use advanced_shortcut::resolver::{
    find_by_title_contains, find_window_by_pid, first_new_window, get_window_list,
    get_window_position, get_windows_by_process_name, RawWindow, TitledWindow,
};
use advanced_shortcut::sequencer::{collect_outcomes, Sequencer};
use advanced_shortcut::text::{file_name_of, str_contains, u64_to_string};

fn titled(hwnd: i64, title: &str) -> TitledWindow {
    TitledWindow {
        hwnd,
        title: title.to_string(),
    }
}

fn raw(hwnd: i64, pid: u32, title: &str) -> RawWindow {
    RawWindow {
        hwnd,
        pid,
        visible: true,
        has_owner: false,
        title: title.to_string(),
        rect: Some(Rect {
            x: 5,
            y: 6,
            width: 300,
            height: 200,
        }),
    }
}

fn proc_info(pid: u32, name: &str) -> ProcessInfo {
    ProcessInfo {
        pid,
        name: name.to_string(),
        memory_usage: 0,
    }
}

/// Drives a machine with a closure that answers each command, collecting the
/// commands issued, and returns the rendered outcome.
fn drive(mut m: ExecMachine, mut answer: impl FnMut(&OsCommand) -> OsResponse) -> (Vec<String>, String) {
    let mut issued: Vec<String> = Vec::new();
    let mut steps = 0;
    loop {
        match m.pending() {
            None => break,
            Some(cmd) => {
                issued.push(command_name(&cmd));
                let resp = answer(&cmd);
                m = m.step(resp);
            }
        }
        steps += 1;
        assert!(steps < 1000, "machine did not finish");
    }
    let outcome = render_outcome(m.outcome());
    (issued, outcome)
}

fn command_name(c: &OsCommand) -> String {
    match c {
        OsCommand::QueryWindowsOfExe { .. } => "query_windows".to_string(),
        OsCommand::QueryWindowByPid { .. } => "query_by_pid".to_string(),
        OsCommand::FetchRect { .. } => "fetch_rect".to_string(),
        OsCommand::ApplyRect { .. } => "apply_rect".to_string(),
        OsCommand::SpawnProgram { .. } => "spawn".to_string(),
        OsCommand::ListProcesses => "list_processes".to_string(),
        OsCommand::SignalKill { .. } => "signal_kill".to_string(),
        OsCommand::ShellOpen { .. } => "shell_open".to_string(),
        OsCommand::QueryDefaultBrowserCommand => "query_browser".to_string(),
        OsCommand::ProbeFile { .. } => "probe_file".to_string(),
        OsCommand::QueryForeground => "query_foreground".to_string(),
        OsCommand::Pause { .. } => "pause".to_string(),
    }
}

#[test]
fn sequencer_records_one_line_per_action_in_order() {
    let results = vec![
        ActionOutcome::Launched {
            path: "app.exe".to_string(),
        },
        ActionOutcome::ProcessNotFound {
            process_name: "gone.exe".to_string(),
        },
        ActionOutcome::Delayed { ms: 500 },
    ];
    let lines = collect_outcomes(&results);
    assert_eq!(lines.len(), 3);
    assert_eq!(lines[0], "Launched: app.exe");
    assert_eq!(lines[1], "Error: Process not found: gone.exe");
    assert_eq!(lines[2], "Delayed for 500ms");
}

#[test]
fn sequencer_machine_walks_actions_in_order() {
    let actions = vec![
        Action::Delay { ms: 1 },
        Action::Delay { ms: 2 },
    ];
    let mut s = Sequencer::new(actions);
    assert!(!s.is_done());
    match s.next_action() {
        Action::Delay { ms } => assert_eq!(*ms, 1),
        _ => panic!("wrong action"),
    }
    s.record(&ActionOutcome::Delayed { ms: 1 });
    match s.next_action() {
        Action::Delay { ms } => assert_eq!(*ms, 2),
        _ => panic!("wrong action"),
    }
    s.record(&ActionOutcome::Delayed { ms: 2 });
    assert!(s.is_done());
    assert_eq!(s.outcomes, vec!["Delayed for 1ms", "Delayed for 2ms"]);
}

#[test]
fn launch_with_existing_window_never_spawns() {
    let action = Action::Launch {
        path: "C:\\apps\\app.exe".to_string(),
        args: None,
        window_config: Some(WindowConfig {
            x: Some(10),
            y: None,
            width: Some(640),
            height: None,
        }),
    };
    let (issued, outcome) = drive(ExecMachine::start(action), |cmd| match cmd {
        OsCommand::QueryWindowsOfExe { exe_name } => {
            assert_eq!(exe_name, "app.exe");
            OsResponse::TitledWindows {
                windows: vec![titled(7, "App")],
            }
        }
        OsCommand::FetchRect { hwnd } => {
            assert_eq!(*hwnd, 7);
            OsResponse::RectFetched {
                rect: Some(Rect {
                    x: 1,
                    y: 2,
                    width: 100,
                    height: 200,
                }),
            }
        }
        OsCommand::ApplyRect { hwnd, rect } => {
            assert_eq!(*hwnd, 7);
            // Requested fields win; omitted fields keep their current value.
            assert_eq!((rect.x, rect.y, rect.width, rect.height), (10, 2, 640, 200));
            OsResponse::Applied
        }
        other => panic!("unexpected command {}", command_name(other)),
    });
    assert!(!issued.iter().any(|c| c == "spawn"));
    assert_eq!(outcome, "Adjusted window for already running: app.exe");
}

#[test]
fn launch_spawns_and_polls_when_nothing_runs() {
    let action = Action::Launch {
        path: "app.exe".to_string(),
        args: Some(vec!["--flag".to_string()]),
        window_config: Some(WindowConfig {
            x: None,
            y: None,
            width: None,
            height: None,
        }),
    };
    let mut polls = 0;
    let (issued, outcome) = drive(ExecMachine::start(action), |cmd| match cmd {
        OsCommand::QueryWindowsOfExe { .. } => OsResponse::TitledWindows { windows: vec![] },
        OsCommand::SpawnProgram { path, args } => {
            assert_eq!(path, "app.exe");
            assert_eq!(args, &vec!["--flag".to_string()]);
            OsResponse::SpawnResult { result: Ok(42) }
        }
        OsCommand::Pause { .. } => OsResponse::Paused,
        OsCommand::QueryWindowByPid { pid } => {
            assert_eq!(*pid, 42);
            polls += 1;
            if polls < 3 {
                OsResponse::FoundWindow { hwnd: None }
            } else {
                OsResponse::FoundWindow { hwnd: Some(9) }
            }
        }
        OsCommand::ApplyRect { hwnd, rect } => {
            assert_eq!(*hwnd, 9);
            // No fields requested: the fixed spawn defaults apply.
            assert_eq!((rect.x, rect.y, rect.width, rect.height), (0, 0, 800, 600));
            OsResponse::Applied
        }
        other => panic!("unexpected command {}", command_name(other)),
    });
    assert_eq!(outcome, "Launched: app.exe");
    assert_eq!(issued.iter().filter(|c| *c == "spawn").count(), 1);
}

#[test]
fn launch_poll_gives_up_silently_after_ten_attempts() {
    let action = Action::Launch {
        path: "app.exe".to_string(),
        args: None,
        window_config: Some(WindowConfig {
            x: Some(1),
            y: Some(2),
            width: Some(3),
            height: Some(4),
        }),
    };
    let (issued, outcome) = drive(ExecMachine::start(action), |cmd| match cmd {
        OsCommand::QueryWindowsOfExe { .. } => OsResponse::TitledWindows { windows: vec![] },
        OsCommand::SpawnProgram { .. } => OsResponse::SpawnResult { result: Ok(1) },
        OsCommand::Pause { .. } => OsResponse::Paused,
        OsCommand::QueryWindowByPid { .. } => OsResponse::FoundWindow { hwnd: None },
        other => panic!("unexpected command {}", command_name(other)),
    });
    // The action still reports success; only positioning was skipped.
    assert_eq!(outcome, "Launched: app.exe");
    assert_eq!(issued.iter().filter(|c| *c == "query_by_pid").count(), 10);
}

#[test]
fn launch_spawn_failure_is_the_actions_error() {
    let action = Action::Launch {
        path: "missing.exe".to_string(),
        args: None,
        window_config: None,
    };
    let (_, outcome) = drive(ExecMachine::start(action), |cmd| match cmd {
        OsCommand::QueryWindowsOfExe { .. } => OsResponse::TitledWindows { windows: vec![] },
        OsCommand::SpawnProgram { .. } => OsResponse::SpawnResult {
            result: Err("no such file".to_string()),
        },
        _ => panic!("unexpected command"),
    });
    assert_eq!(outcome, "Failed to launch missing.exe: no such file");
}

#[test]
fn open_folder_without_geometry_skips_settle_and_resolution() {
    let action = Action::OpenFolder {
        path: "C:\\data".to_string(),
        window_config: None,
    };
    let (issued, outcome) = drive(ExecMachine::start(action), |cmd| match cmd {
        OsCommand::ShellOpen { path } => {
            assert_eq!(path, "C:\\data");
            OsResponse::ShellOpened { result: Ok(()) }
        }
        other => panic!("unexpected command {}", command_name(other)),
    });
    assert_eq!(issued, vec!["shell_open"]);
    assert_eq!(outcome, "Opened folder: C:\\data");
}

#[test]
fn open_url_without_geometry_skips_settle_and_resolution() {
    let action = Action::OpenUrl {
        url: "https://example.test".to_string(),
        window_config: None,
    };
    let (issued, outcome) = drive(ExecMachine::start(action), |cmd| match cmd {
        OsCommand::QueryDefaultBrowserCommand => OsResponse::BrowserCommand { choice: None },
        OsCommand::ProbeFile { .. } => OsResponse::FileExists { exists: false },
        OsCommand::SpawnProgram { path, args } => {
            assert_eq!(path, "cmd");
            assert_eq!(
                args,
                &vec![
                    "/c".to_string(),
                    "start".to_string(),
                    String::new(),
                    "https://example.test".to_string()
                ]
            );
            OsResponse::SpawnResult { result: Ok(5) }
        }
        other => panic!("unexpected command {}", command_name(other)),
    });
    assert!(!issued.iter().any(|c| c == "pause"));
    assert!(!issued.iter().any(|c| c == "query_windows"));
    assert!(!issued.iter().any(|c| c == "query_foreground"));
    assert_eq!(outcome, "Opened URL: https://example.test");
}

#[test]
fn open_folder_resolves_new_window_by_diff() {
    let action = Action::OpenFolder {
        path: "C:\\users\\me\\Pictures".to_string(),
        window_config: Some(WindowConfig {
            x: Some(0),
            y: Some(0),
            width: None,
            height: None,
        }),
    };
    let mut queries = 0;
    let (_, outcome) = drive(ExecMachine::start(action), |cmd| match cmd {
        OsCommand::QueryWindowsOfExe { exe_name } => {
            assert_eq!(exe_name, "explorer.exe");
            queries += 1;
            if queries == 1 {
                OsResponse::TitledWindows {
                    windows: vec![titled(1, "Home"), titled(2, "Music")],
                }
            } else {
                OsResponse::TitledWindows {
                    windows: vec![titled(1, "Home"), titled(2, "Music"), titled(3, "Pictures")],
                }
            }
        }
        OsCommand::ShellOpen { .. } => OsResponse::ShellOpened { result: Ok(()) },
        OsCommand::Pause { ms } => {
            assert_eq!(*ms, 800);
            OsResponse::Paused
        }
        OsCommand::FetchRect { hwnd } => {
            assert_eq!(*hwnd, 3);
            OsResponse::RectFetched {
                rect: Some(Rect {
                    x: 9,
                    y: 9,
                    width: 500,
                    height: 400,
                }),
            }
        }
        OsCommand::ApplyRect { hwnd, rect } => {
            assert_eq!(*hwnd, 3);
            assert_eq!((rect.x, rect.y, rect.width, rect.height), (0, 0, 500, 400));
            OsResponse::Applied
        }
        other => panic!("unexpected command {}", command_name(other)),
    });
    assert_eq!(outcome, "Opened folder: C:\\users\\me\\Pictures");
}

#[test]
fn kill_with_no_match_reports_not_found() {
    let action = Action::Kill {
        process_name: "ghost.exe".to_string(),
    };
    let (_, outcome) = drive(ExecMachine::start(action), |cmd| match cmd {
        OsCommand::ListProcesses => OsResponse::Processes {
            list: vec![proc_info(1, "other.exe")],
        },
        _ => panic!("unexpected command"),
    });
    assert_eq!(outcome, "Process not found: ghost.exe");
}

#[test]
fn kill_with_three_matches_reports_count_three() {
    let action = Action::Kill {
        process_name: "App.EXE".to_string(),
    };
    let mut killed: Vec<u32> = Vec::new();
    let (_, outcome) = drive(ExecMachine::start(action), |cmd| match cmd {
        OsCommand::ListProcesses => OsResponse::Processes {
            list: vec![
                proc_info(1, "app.exe"),
                proc_info(2, "other.exe"),
                proc_info(3, "APP.exe"),
                proc_info(4, "App.Exe"),
            ],
        },
        OsCommand::SignalKill { pid } => {
            killed.push(*pid);
            OsResponse::Signalled
        }
        _ => panic!("unexpected command"),
    });
    assert_eq!(killed, vec![1, 3, 4]);
    assert_eq!(outcome, "Killed 3 instance(s) of App.EXE");
}

#[test]
fn shortcut_run_twice_adjusts_instead_of_relaunching() {
    let actions = vec![
        Action::Launch {
            path: "app.exe".to_string(),
            args: None,
            window_config: None,
        },
        Action::Delay { ms: 500 },
        Action::Kill {
            process_name: "app.exe".to_string(),
        },
    ];
    let mut windows_present = false;
    let mut run = |actions: &[Action]| -> Vec<String> {
        let mut lines = Vec::new();
        for action in actions {
            let m = ExecMachine::start(action.clone());
            let (_, outcome) = drive(m, |cmd| match cmd {
                OsCommand::QueryWindowsOfExe { .. } => OsResponse::TitledWindows {
                    windows: if windows_present {
                        vec![titled(11, "App")]
                    } else {
                        vec![]
                    },
                },
                OsCommand::SpawnProgram { .. } => {
                    windows_present = true;
                    OsResponse::SpawnResult { result: Ok(77) }
                }
                OsCommand::Pause { .. } => OsResponse::Paused,
                OsCommand::ListProcesses => OsResponse::Processes {
                    list: vec![proc_info(77, "app.exe")],
                },
                OsCommand::SignalKill { .. } => OsResponse::Signalled,
                other => panic!("unexpected command {}", command_name(other)),
            });
            lines.push(outcome);
        }
        lines
    };
    let first = run(&actions);
    assert_eq!(first[0], "Launched: app.exe");
    assert_eq!(first[1], "Delayed for 500ms");
    assert_eq!(first[2], "Killed 1 instance(s) of app.exe");
    // The process survived the kill: the second run adjusts, never respawns.
    let second = run(&actions);
    assert_eq!(second[0], "Adjusted window for already running: app.exe");
    assert_eq!(second[2], "Killed 1 instance(s) of app.exe");
}

#[test]
fn snapshot_diff_finds_exactly_the_new_handle() {
    let before = vec![100i64, 200];
    let after = vec![titled(100, "a"), titled(200, "b"), titled(300, "c")];
    assert_eq!(first_new_window(&before, &after), Some(300));
    let unchanged = vec![titled(100, "a"), titled(200, "b")];
    assert_eq!(first_new_window(&before, &unchanged), None);
}

#[test]
fn title_fallback_matches_substring() {
    let ws = vec![titled(1, "Documents"), titled(2, "My Pictures - Explorer")];
    assert_eq!(find_by_title_contains(&ws, "Pictures"), Some(2));
    assert_eq!(find_by_title_contains(&ws, "Videos"), None);
}

#[test]
fn overlay_is_idempotent_on_applied_rectangle() {
    let config = WindowConfig {
        x: Some(50),
        y: None,
        width: Some(640),
        height: None,
    };
    let current = Rect {
        x: 1,
        y: 2,
        width: 3,
        height: 4,
    };
    let once = config.overlay(current);
    let twice = config.overlay(once);
    assert_eq!(once, twice);
    assert_eq!((once.x, once.y, once.width, once.height), (50, 2, 640, 4));
}

#[test]
fn window_queries_follow_the_table() {
    let procs = vec![proc_info(10, "Chrome.exe"), proc_info(20, "other.exe")];
    let table = vec![
        raw(1, 10, "tab one"),
        RawWindow {
            hwnd: 2,
            pid: 10,
            visible: false,
            has_owner: false,
            title: "hidden".to_string(),
            rect: None,
        },
        raw(3, 20, "other window"),
        RawWindow {
            hwnd: 4,
            pid: 10,
            visible: true,
            has_owner: false,
            title: String::new(),
            rect: None,
        },
    ];
    let ws = get_windows_by_process_name(&procs, &table, "chrome.EXE");
    assert_eq!(ws.len(), 1);
    assert_eq!(ws[0].hwnd, 1);
    assert_eq!(find_window_by_pid(&table, 10), Some(1));
    assert_eq!(find_window_by_pid(&table, 99), None);

    let list = get_window_list(&table, &procs);
    assert_eq!(list.len(), 2);
    assert_eq!(list[0].hwnd, 1);
    assert_eq!(list[0].process_name, "Chrome.exe");
    assert_eq!(list[1].hwnd, 3);

    let pos = get_window_position(&procs, &table, "chrome.exe").unwrap();
    assert_eq!(pos.x, Some(5));
    assert_eq!(pos.y, Some(6));
    assert_eq!(pos.width, Some(300));
    assert_eq!(pos.height, Some(200));
    assert!(get_window_position(&procs, &table, "nothing.exe").is_err());
}

#[test]
fn cli_request_takes_the_last_given_id() {
    let args = vec![
        "--execute-shortcut".to_string(),
        "first".to_string(),
        "--execute-shortcut".to_string(),
        "second".to_string(),
    ];
    let req = parse_cli_shortcut_request(&args).unwrap();
    assert_eq!(req.shortcut_id, "second");
}

#[test]
fn cli_request_requires_a_non_empty_id() {
    assert!(parse_cli_shortcut_request(&vec![]).is_none());
    assert!(parse_cli_shortcut_request(&vec!["--execute-shortcut".to_string()]).is_none());
    assert!(parse_cli_shortcut_request(&vec![
        "--execute-shortcut".to_string(),
        String::new()
    ])
    .is_none());
    let req = parse_cli_shortcut_request(&vec![
        "other".to_string(),
        "--execute-shortcut".to_string(),
        "abc".to_string(),
    ])
    .unwrap();
    assert_eq!(req.shortcut_id, "abc");
}

#[test]
fn file_name_takes_the_last_path_component() {
    assert_eq!(file_name_of("C:\\Program Files\\App\\app.exe"), "app.exe");
    assert_eq!(file_name_of("/usr/bin/tool"), "tool");
    assert_eq!(file_name_of("plain.exe"), "plain.exe");
    assert_eq!(file_name_of("C:\\dir\\"), "dir");
    assert_eq!(file_name_of(""), "");
    // A trailing `.` component is ignored; `..` is no file name.
    assert_eq!(file_name_of("foo/."), "foo");
    assert_eq!(file_name_of("foo/./."), "foo");
    assert_eq!(file_name_of(".."), "");
    assert_eq!(file_name_of("a\\.."), "");
    // A drive designator carries no file name of its own.
    assert_eq!(file_name_of("C:\\"), "");
    assert_eq!(file_name_of("C:"), "");
    assert_eq!(file_name_of("C:app.exe"), "app.exe");
    assert_eq!(file_name_of("..."), "...");
    assert_eq!(file_name_of(".hidden"), ".hidden");
}

#[test]
fn default_browser_flag_is_keyed_by_executable_name() {
    // The registry names an unusual programmatic id; the flag still follows
    // the executable's file name.
    let action = Action::OpenUrl {
        url: "https://example.test".to_string(),
        window_config: None,
    };
    let (_, outcome) = drive(ExecMachine::start(action), |cmd| match cmd {
        OsCommand::QueryDefaultBrowserCommand => OsResponse::BrowserCommand {
            choice: Some(BrowserChoice {
                prog_id: "CustomBrowserHTML".to_string(),
                command: "\"C:\\Program Files\\Mozilla Firefox\\firefox.exe\" -osint -url %1"
                    .to_string(),
            }),
        },
        OsCommand::SpawnProgram { path, args } => {
            assert_eq!(path, "C:\\Program Files\\Mozilla Firefox\\firefox.exe");
            assert_eq!(args[0], "-new-window");
            assert_eq!(args[1], "https://example.test");
            OsResponse::SpawnResult { result: Ok(8) }
        }
        other => panic!("unexpected command {}", command_name(other)),
    });
    assert_eq!(outcome, "Opened URL: https://example.test");
}

#[test]
fn contains_and_rendering_behave() {
    assert!(str_contains("FirefoxURL-308046B0AF4A39CB", "Firefox"));
    assert!(!str_contains("ChromeHTML", "firefox"));
    assert_eq!(u64_to_string(0), "0");
    assert_eq!(u64_to_string(90153), "90153");
}
