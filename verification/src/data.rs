//! The data model: actions, shortcuts, groups and the records returned by
//! queries, together with the command-line request parser.

use vstd::prelude::*;

use crate::geometry::WindowConfig;

verus! {

/// One automation step of a shortcut.
#[derive(Clone, Debug)]
pub enum Action {
    Launch { path: String, args: Option<Vec<String>>, window_config: Option<WindowConfig> },
    Kill { process_name: String },
    OpenFolder { path: String, window_config: Option<WindowConfig> },
    OpenUrl { url: String, window_config: Option<WindowConfig> },
    Delay { ms: u64 },
}

/// A stored shortcut: an ordered list of actions plus presentation data.
#[derive(Clone, Debug)]
pub struct Shortcut {
    pub id: String,
    pub name: String,
    pub icon: String,
    pub group_id: String,
    pub actions: Vec<Action>,
    pub order: i32,
    pub created_at: String,
    pub updated_at: String,
}

/// A group of shortcuts.
#[derive(Clone, Debug)]
pub struct Group {
    pub id: String,
    pub name: String,
    pub color: String,
    pub icon: String,
    pub order: i32,
    pub is_expanded: bool,
}

/// Everything the store persists.
#[derive(Clone, Debug)]
pub struct AppData {
    pub shortcuts: Vec<Shortcut>,
    pub groups: Vec<Group>,
}

/// One running process, as reported by the system.
#[derive(Clone, Debug)]
pub struct ProcessInfo {
    pub pid: u32,
    pub name: String,
    pub memory_usage: u64,
}

/// One visible top-level window, as reported by the system.
#[derive(Clone, Debug)]
pub struct WindowInfo {
    pub hwnd: i64,
    pub title: String,
    pub process_name: String,
    pub pid: u32,
    pub x: i32,
    pub y: i32,
    pub width: i32,
    pub height: i32,
}

/// One installed application found on the machine.
#[derive(Clone, Debug)]
pub struct InstalledApp {
    pub name: String,
    pub path: String,
    pub icon: Option<String>,
}

/// The target and arguments read back from a desktop link.
#[derive(Clone, Debug)]
pub struct ShortcutResolveResponse {
    pub path: String,
    pub args: String,
}

/// How a desktop link should present itself.
#[derive(Clone, Debug)]
pub struct DesktopShortcutOptions {
    pub name: String,
    pub icon_path: Option<String>,
    pub icon_index: Option<i32>,
    pub custom_icon_data: Option<String>,
    pub border_radius: u32,
}

/// A request to create one desktop link for a stored shortcut.
#[derive(Clone, Debug)]
pub struct CreateDesktopShortcutRequest {
    pub shortcut_id: String,
    pub target_path: String,
    pub options: DesktopShortcutOptions,
}

/// A request parsed from the command line.
#[derive(Clone, Debug)]
pub struct CliShortcutRequest {
    pub shortcut_id: String,
}

/// The flag that names a shortcut to execute headlessly.
pub open spec fn spec_execute_flag() -> Seq<char> {
    "--execute-shortcut"@
}

/// Folds the argument list as the parser walks it: every occurrence of the
/// execute flag assigns the following argument (when there is one) as the
/// shortcut id, consuming it; the last assignment wins.
pub open spec fn spec_cli_fold(args: Seq<String>, acc: Seq<char>) -> Seq<char>
    decreases args.len(),
{
    if args.len() == 0 {
        acc
    } else if args[0]@ == spec_execute_flag() {
        if args.len() == 1 {
            acc
        } else {
            spec_cli_fold(args.skip(2), args[1]@)
        }
    } else {
        spec_cli_fold(args.skip(1), acc)
    }
}

/// The shortcut id named on the command line, empty if none was named.
pub open spec fn spec_cli_id(args: Seq<String>) -> Seq<char> {
    spec_cli_fold(args, Seq::empty())
}

/// Parses the argument list (without the program name). Returns the request
/// exactly when a non-empty shortcut id was named.
pub fn parse_cli_shortcut_request(args: &Vec<String>) -> (r: Option<CliShortcutRequest>)
    ensures
        r is Some <==> spec_cli_id(args@) != Seq::<char>::empty(),
        r is Some ==> r->0.shortcut_id@ == spec_cli_id(args@),
{
    let flag = String::from_str("--execute-shortcut");
    let mut id = String::new();
    let mut i: usize = 0;
    proof {
        assert(args@.skip(0) =~= args@);
        assert(id@ =~= Seq::<char>::empty());
    }
    while i < args.len()
        invariant
            flag@ == spec_execute_flag(),
            0 <= i <= args@.len(),
            spec_cli_fold(args@.skip(i as int), id@) == spec_cli_id(args@),
        decreases args@.len() - i,
    {
        proof {
            assert(args@.skip(i as int)[0] == args@[i as int]);
        }
        if args[i].eq(&flag) {
            if i + 1 < args.len() {
                proof {
                    assert(args@.skip(i as int)[1] == args@[i + 1]);
                    assert(args@.skip(i as int).skip(2) =~= args@.skip(i + 2));
                }
                id = args[i + 1].clone();
                i += 2;
            } else {
                proof {
                    assert(args@.skip(i as int).len() == 1);
                }
                i += 1;
            }
        } else {
            proof {
                assert(args@.skip(i as int).skip(1) =~= args@.skip(i + 1));
            }
            i += 1;
        }
    }
    proof {
        assert(args@.skip(i as int).len() == 0);
    }
    if id.as_str().unicode_len() == 0 {
        proof {
            assert(id@ =~= Seq::<char>::empty());
        }
        None
    } else {
        Some(CliShortcutRequest { shortcut_id: id })
    }
}

/// The store contents used before any data has been saved: no shortcuts and
/// one expanded default group.
pub fn default_app_data() -> (r: AppData)
    ensures
        r.shortcuts@.len() == 0,
        r.groups@.len() == 1,
        r.groups@[0].id@ == "default"@,
        r.groups@[0].name@ == "デフォルト"@,
        r.groups@[0].color@ == "#22d3ee"@,
        r.groups@[0].icon@ == "folder"@,
        r.groups@[0].order == 0,
        r.groups@[0].is_expanded,
{
    let group = Group {
        id: String::from_str("default"),
        name: String::from_str("デフォルト"),
        color: String::from_str("#22d3ee"),
        icon: String::from_str("folder"),
        order: 0,
        is_expanded: true,
    };
    let mut groups: Vec<Group> = Vec::new();
    groups.push(group);
    AppData { shortcuts: Vec::new(), groups }
}

/// The index of the first stored shortcut whose id is `id`.
pub fn find_shortcut_index(data: &AppData, id: &String) -> (r: Option<usize>)
    ensures
        match r {
            Some(j) => {
                &&& j < data.shortcuts@.len()
                &&& data.shortcuts@[j as int].id@ == id@
                &&& forall|k: int| 0 <= k < j ==> data.shortcuts@[k].id@ != id@
            },
            None => forall|k: int|
                0 <= k < data.shortcuts@.len() ==> data.shortcuts@[k].id@ != id@,
        },
{
    let mut j: usize = 0;
    while j < data.shortcuts.len()
        invariant
            0 <= j <= data.shortcuts@.len(),
            forall|k: int| 0 <= k < j ==> data.shortcuts@[k].id@ != id@,
        decreases data.shortcuts@.len() - j,
    {
        if data.shortcuts[j].id.eq(id) {
            return Some(j);
        }
        j += 1;
    }
    None
}

} // verus!
