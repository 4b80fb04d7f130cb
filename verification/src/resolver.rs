//! The window resolver: pure selection logic over a snapshot of the live
//! window table, and the before/after snapshot diff.
//!
//! The table itself is supplied by the caller (the operating system owns the
//! windows); every function here is a total query over that table.

use vstd::prelude::*;

use crate::data::{ProcessInfo, WindowInfo};
use crate::geometry::{Rect, WindowConfig};
use crate::text::{lower_of, lowercase, spec_contains_seq, str_contains};

verus! {

/// One top-level window as the enumeration pass reports it.
#[derive(Clone, Debug)]
pub struct RawWindow {
    pub hwnd: i64,
    pub pid: u32,
    pub visible: bool,
    pub has_owner: bool,
    pub title: String,
    pub rect: Option<Rect>,
}

/// A window handle together with its title text.
#[derive(Clone, Debug)]
pub struct TitledWindow {
    pub hwnd: i64,
    pub title: String,
}

/// The handles of all visible windows of `pid`, in table order.
pub open spec fn spec_visible_pid_handles(t: Seq<RawWindow>, pid: u32) -> Seq<i64>
    decreases t.len(),
{
    if t.len() == 0 {
        Seq::empty()
    } else {
        let rest = spec_visible_pid_handles(t.drop_last(), pid);
        if t.last().pid == pid && t.last().visible {
            rest.push(t.last().hwnd)
        } else {
            rest
        }
    }
}

/// The visible, titled windows of `pid`, in table order.
pub open spec fn spec_titled_pid_windows(t: Seq<RawWindow>, pid: u32) -> Seq<TitledWindow>
    decreases t.len(),
{
    if t.len() == 0 {
        Seq::empty()
    } else {
        let rest = spec_titled_pid_windows(t.drop_last(), pid);
        if t.last().pid == pid && t.last().visible && t.last().title@.len() > 0 {
            rest.push(TitledWindow { hwnd: t.last().hwnd, title: t.last().title })
        } else {
            rest
        }
    }
}

/// The titled windows of every process whose name equals `name` after case
/// folding, walking the process list in order.
pub open spec fn spec_windows_of_process_name(
    procs: Seq<ProcessInfo>,
    t: Seq<RawWindow>,
    name: Seq<char>,
) -> Seq<TitledWindow>
    decreases procs.len(),
{
    if procs.len() == 0 {
        Seq::empty()
    } else {
        let rest = spec_windows_of_process_name(procs.drop_last(), t, name);
        if lower_of(procs.last().name@) == lower_of(name) {
            rest + spec_titled_pid_windows(t, procs.last().pid)
        } else {
            rest
        }
    }
}

/// The first visible window of `pid`, in table order.
pub fn find_window_by_pid(table: &Vec<RawWindow>, pid: u32) -> (r: Option<i64>)
    ensures
        match r {
            Some(h) => spec_visible_pid_handles(table@, pid).len() > 0
                && h == spec_visible_pid_handles(table@, pid)[0],
            None => spec_visible_pid_handles(table@, pid).len() == 0,
        },
{
    let all = find_all_windows_by_pid(table, pid);
    if all.len() > 0 {
        Some(all[0])
    } else {
        None
    }
}

/// All visible windows of `pid`, in table order.
pub fn find_all_windows_by_pid(table: &Vec<RawWindow>, pid: u32) -> (r: Vec<i64>)
    ensures
        r@ == spec_visible_pid_handles(table@, pid),
{
    let mut r: Vec<i64> = Vec::new();
    let mut i: usize = 0;
    proof {
        assert(table@.take(0) =~= Seq::<RawWindow>::empty());
    }
    while i < table.len()
        invariant
            0 <= i <= table@.len(),
            r@ == spec_visible_pid_handles(table@.take(i as int), pid),
        decreases table@.len() - i,
    {
        proof {
            assert(table@.take(i + 1).drop_last() =~= table@.take(i as int));
            assert(table@.take(i + 1).last() == table@[i as int]);
        }
        let w = &table[i];
        if w.pid == pid && w.visible {
            r.push(w.hwnd);
        }
        i += 1;
    }
    proof {
        assert(table@.take(table@.len() as int) =~= table@);
    }
    r
}

/// All visible, titled windows of `pid`, with their titles.
fn titled_windows_of_pid(table: &Vec<RawWindow>, pid: u32) -> (r: Vec<TitledWindow>)
    ensures
        r@ == spec_titled_pid_windows(table@, pid),
{
    let mut r: Vec<TitledWindow> = Vec::new();
    let mut i: usize = 0;
    proof {
        assert(table@.take(0) =~= Seq::<RawWindow>::empty());
    }
    while i < table.len()
        invariant
            0 <= i <= table@.len(),
            r@ == spec_titled_pid_windows(table@.take(i as int), pid),
        decreases table@.len() - i,
    {
        proof {
            assert(table@.take(i + 1).drop_last() =~= table@.take(i as int));
            assert(table@.take(i + 1).last() == table@[i as int]);
        }
        let w = &table[i];
        if w.pid == pid && w.visible && w.title.as_str().unicode_len() > 0 {
            r.push(TitledWindow { hwnd: w.hwnd, title: w.title.clone() });
        }
        i += 1;
    }
    proof {
        assert(table@.take(table@.len() as int) =~= table@);
    }
    r
}

/// The titled windows of every running process whose executable name matches
/// `process_name` case-insensitively, walking the process list in order.
pub fn get_windows_by_process_name(
    processes: &Vec<ProcessInfo>,
    table: &Vec<RawWindow>,
    process_name: &str,
) -> (r: Vec<TitledWindow>)
    ensures
        r@ == spec_windows_of_process_name(processes@, table@, process_name@),
{
    let target = lowercase(process_name);
    let mut r: Vec<TitledWindow> = Vec::new();
    let mut i: usize = 0;
    proof {
        assert(processes@.take(0) =~= Seq::<ProcessInfo>::empty());
    }
    while i < processes.len()
        invariant
            target@ == lower_of(process_name@),
            0 <= i <= processes@.len(),
            r@ == spec_windows_of_process_name(
                processes@.take(i as int),
                table@,
                process_name@,
            ),
        decreases processes@.len() - i,
    {
        proof {
            assert(processes@.take(i + 1).drop_last() =~= processes@.take(i as int));
            assert(processes@.take(i + 1).last() == processes@[i as int]);
        }
        let pname = lowercase(processes[i].name.as_str());
        if pname.eq(&target) {
            let mut ws = titled_windows_of_pid(table, processes[i].pid);
            let ghost prev = r@;
            let mut k: usize = 0;
            while k < ws.len()
                invariant
                    0 <= k <= ws@.len(),
                    ws@ == spec_titled_pid_windows(table@, processes@[i as int].pid),
                    r@ == prev + ws@.take(k as int),
                decreases ws@.len() - k,
            {
                proof {
                    assert(ws@.take(k + 1) =~= ws@.take(k as int).push(ws@[k as int]));
                    assert(prev + ws@.take(k + 1) =~= (prev + ws@.take(k as int)).push(
                        ws@[k as int],
                    ));
                }
                let w = TitledWindow { hwnd: ws[k].hwnd, title: ws[k].title.clone() };
                proof {
                    assert(w == ws@[k as int]);
                }
                r.push(w);
                k += 1;
            }
            proof {
                assert(ws@.take(ws@.len() as int) =~= ws@);
            }
        }
        i += 1;
    }
    proof {
        assert(processes@.take(processes@.len() as int) =~= processes@);
    }
    r
}

/// The titled windows of the file-manager shell.
pub fn get_explorer_windows(processes: &Vec<ProcessInfo>, table: &Vec<RawWindow>) -> (r: Vec<
    TitledWindow,
>)
    ensures
        r@ == spec_windows_of_process_name(processes@, table@, "explorer.exe"@),
{
    get_windows_by_process_name(processes, table, "explorer.exe")
}

/// The handles of a titled-window list, in order.
pub open spec fn spec_handles(ws: Seq<TitledWindow>) -> Seq<i64> {
    ws.map_values(|w: TitledWindow| w.hwnd)
}

/// The handles of a titled-window list, in order.
pub fn handles_of(ws: &Vec<TitledWindow>) -> (r: Vec<i64>)
    ensures
        r@ == spec_handles(ws@),
{
    let mut r: Vec<i64> = Vec::new();
    let mut i: usize = 0;
    while i < ws.len()
        invariant
            0 <= i <= ws@.len(),
            r@ == spec_handles(ws@.take(i as int)),
        decreases ws@.len() - i,
    {
        proof {
            assert(spec_handles(ws@.take(i + 1)) =~= spec_handles(ws@.take(i as int)).push(
                ws@[i as int].hwnd,
            ));
        }
        r.push(ws[i].hwnd);
        i += 1;
    }
    proof {
        assert(ws@.take(ws@.len() as int) =~= ws@);
        assert(spec_handles(ws@.take(ws@.len() as int)) =~= spec_handles(ws@));
    }
    r
}

/// The handle of the first window of `after` absent from `before`.
pub open spec fn spec_first_new(before: Seq<i64>, after: Seq<TitledWindow>) -> Option<i64>
    decreases after.len(),
{
    if after.len() == 0 {
        None
    } else if !before.contains(after[0].hwnd) {
        Some(after[0].hwnd)
    } else {
        spec_first_new(before, after.drop_first())
    }
}

/// The first window of `after` whose handle is not in `before`.
pub fn first_new_window(before: &Vec<i64>, after: &Vec<TitledWindow>) -> (r: Option<i64>)
    ensures
        r == spec_first_new(before@, after@),
{
    let mut j: usize = 0;
    proof {
        assert(after@.skip(0) =~= after@);
    }
    while j < after.len()
        invariant
            0 <= j <= after@.len(),
            spec_first_new(before@, after@) == spec_first_new(before@, after@.skip(j as int)),
        decreases after@.len() - j,
    {
        proof {
            assert(after@.skip(j as int)[0] == after@[j as int]);
            assert(after@.skip(j as int).drop_first() =~= after@.skip(j + 1));
        }
        if !vec_contains_i64(before, after[j].hwnd) {
            return Some(after[j].hwnd);
        }
        j += 1;
    }
    None
}

/// Whether `v` holds `x`.
pub fn vec_contains_i64(v: &Vec<i64>, x: i64) -> (r: bool)
    ensures
        r == v@.contains(x),
{
    let mut i: usize = 0;
    while i < v.len()
        invariant
            0 <= i <= v@.len(),
            forall|k: int| 0 <= k < i ==> v@[k] != x,
        decreases v@.len() - i,
    {
        if v[i] == x {
            return true;
        }
        i += 1;
    }
    false
}

/// The handle of the first window of `ws` whose title contains `needle`.
pub open spec fn spec_first_title_match(ws: Seq<TitledWindow>, needle: Seq<char>) -> Option<
    i64,
>
    decreases ws.len(),
{
    if ws.len() == 0 {
        None
    } else if spec_contains_seq(ws[0].title@, needle) {
        Some(ws[0].hwnd)
    } else {
        spec_first_title_match(ws.drop_first(), needle)
    }
}

/// The first window of `ws` whose title contains `needle`.
pub fn find_by_title_contains(ws: &Vec<TitledWindow>, needle: &str) -> (r: Option<i64>)
    ensures
        r == spec_first_title_match(ws@, needle@),
{
    let mut j: usize = 0;
    proof {
        assert(ws@.skip(0) =~= ws@);
    }
    while j < ws.len()
        invariant
            0 <= j <= ws@.len(),
            spec_first_title_match(ws@, needle@) == spec_first_title_match(
                ws@.skip(j as int),
                needle@,
            ),
        decreases ws@.len() - j,
    {
        proof {
            assert(ws@.skip(j as int)[0] == ws@[j as int]);
            assert(ws@.skip(j as int).drop_first() =~= ws@.skip(j + 1));
        }
        if str_contains(ws[j].title.as_str(), needle) {
            return Some(ws[j].hwnd);
        }
        j += 1;
    }
    None
}

/// The handles of the titled windows of every process matching `name`.
pub fn find_windows_by_process_name(
    processes: &Vec<ProcessInfo>,
    table: &Vec<RawWindow>,
    process_name: &str,
) -> (r: Vec<i64>)
    ensures
        r@ == spec_handles(spec_windows_of_process_name(processes@, table@, process_name@)),
{
    let ws = get_windows_by_process_name(processes, table, process_name);
    handles_of(&ws)
}

/// The name of the first listed process with id `pid`, empty when none has
/// it.
pub open spec fn spec_pid_name(procs: Seq<ProcessInfo>, pid: u32) -> Seq<char>
    decreases procs.len(),
{
    if procs.len() == 0 {
        Seq::empty()
    } else if procs[0].pid == pid {
        procs[0].name@
    } else {
        spec_pid_name(procs.drop_first(), pid)
    }
}

/// The name of the first listed process with id `pid`, empty when none.
fn pid_name(procs: &Vec<ProcessInfo>, pid: u32) -> (r: String)
    ensures
        r@ == spec_pid_name(procs@, pid),
{
    let mut i: usize = 0;
    proof {
        assert(procs@.skip(0) =~= procs@);
    }
    while i < procs.len()
        invariant
            0 <= i <= procs@.len(),
            spec_pid_name(procs@, pid) == spec_pid_name(procs@.skip(i as int), pid),
        decreases procs@.len() - i,
    {
        proof {
            assert(procs@.skip(i as int)[0] == procs@[i as int]);
            assert(procs@.skip(i as int).drop_first() =~= procs@.skip(i + 1));
        }
        if procs[i].pid == pid {
            return procs[i].name.clone();
        }
        i += 1;
    }
    proof {
        assert(procs@.skip(i as int).len() == 0);
    }
    let empty = String::new();
    proof {
        assert(empty@ =~= Seq::<char>::empty());
    }
    empty
}

/// The abstract content of one listed window.
pub ghost struct WindowInfoView {
    pub hwnd: i64,
    pub title: Seq<char>,
    pub process_name: Seq<char>,
    pub pid: u32,
    pub rect: Rect,
}

/// The view of a window record.
pub open spec fn spec_window_info_view(w: WindowInfo) -> WindowInfoView {
    WindowInfoView {
        hwnd: w.hwnd,
        title: w.title@,
        process_name: w.process_name@,
        pid: w.pid,
        rect: Rect { x: w.x, y: w.y, width: w.width, height: w.height },
    }
}

/// Whether an enumerated window belongs in the listing: visible, unowned,
/// titled, measured, and no smaller than the listing's minimum size.
pub open spec fn spec_listable(w: RawWindow) -> bool {
    &&& w.visible
    &&& !w.has_owner
    &&& w.title@.len() > 0
    &&& w.rect is Some
    &&& w.rect->0.width >= 100
    &&& w.rect->0.height >= 50
}

/// The listing built from the enumerated windows: one record per listable
/// window, in table order, each named after the first process with its id.
pub open spec fn spec_window_list(
    t: Seq<RawWindow>,
    procs: Seq<ProcessInfo>,
) -> Seq<WindowInfoView>
    decreases t.len(),
{
    if t.len() == 0 {
        Seq::empty()
    } else {
        let rest = spec_window_list(t.drop_last(), procs);
        let w = t.last();
        if spec_listable(w) {
            rest.push(
                WindowInfoView {
                    hwnd: w.hwnd,
                    title: w.title@,
                    process_name: spec_pid_name(procs, w.pid),
                    pid: w.pid,
                    rect: w.rect->0,
                },
            )
        } else {
            rest
        }
    }
}

/// Lists the visible, unowned, titled windows of at least the minimum size,
/// each tagged with its owning process's name.
pub fn get_window_list(table: &Vec<RawWindow>, processes: &Vec<ProcessInfo>) -> (r: Vec<
    WindowInfo,
>)
    ensures
        r@.map_values(|w: WindowInfo| spec_window_info_view(w)) == spec_window_list(
            table@,
            processes@,
        ),
{
    let mut r: Vec<WindowInfo> = Vec::new();
    let mut i: usize = 0;
    proof {
        assert(table@.take(0) =~= Seq::<RawWindow>::empty());
        assert(r@.map_values(|w: WindowInfo| spec_window_info_view(w)) =~= spec_window_list(
            table@.take(0),
            processes@,
        ));
    }
    while i < table.len()
        invariant
            0 <= i <= table@.len(),
            r@.map_values(|w: WindowInfo| spec_window_info_view(w)) == spec_window_list(
                table@.take(i as int),
                processes@,
            ),
        decreases table@.len() - i,
    {
        proof {
            assert(table@.take(i + 1).drop_last() =~= table@.take(i as int));
            assert(table@.take(i + 1).last() == table@[i as int]);
        }
        let w = &table[i];
        let mut take_it = false;
        let mut rect = Rect { x: 0, y: 0, width: 0, height: 0 };
        if w.visible && !w.has_owner && w.title.as_str().unicode_len() > 0 {
            match &w.rect {
                Some(rc) => {
                    if rc.width >= 100 && rc.height >= 50 {
                        take_it = true;
                        rect = *rc;
                    }
                },
                None => {},
            }
        }
        if take_it {
            let name = pid_name(processes, w.pid);
            let info = WindowInfo {
                hwnd: w.hwnd,
                title: w.title.clone(),
                process_name: name,
                pid: w.pid,
                x: rect.x,
                y: rect.y,
                width: rect.width,
                height: rect.height,
            };
            proof {
                assert(spec_window_info_view(info) == WindowInfoView {
                    hwnd: table@[i as int].hwnd,
                    title: table@[i as int].title@,
                    process_name: spec_pid_name(processes@, table@[i as int].pid),
                    pid: table@[i as int].pid,
                    rect: table@[i as int].rect->0,
                });
            }
            let ghost prev = r@;
            r.push(info);
            proof {
                assert(r@.map_values(|w: WindowInfo| spec_window_info_view(w)) =~= prev
                    .map_values(|w: WindowInfo| spec_window_info_view(w)).push(
                    spec_window_info_view(info),
                ));
            }
        }
        i += 1;
    }
    proof {
        assert(table@.take(table@.len() as int) =~= table@);
    }
    r
}

/// The stored rectangle of the first table entry with handle `h`.
pub open spec fn spec_rect_of(t: Seq<RawWindow>, h: i64) -> Option<Rect>
    decreases t.len(),
{
    if t.len() == 0 {
        None
    } else if t[0].hwnd == h {
        t[0].rect
    } else {
        spec_rect_of(t.drop_first(), h)
    }
}

/// The stored rectangle of the first table entry with handle `h`.
pub fn rect_of(table: &Vec<RawWindow>, h: i64) -> (r: Option<Rect>)
    ensures
        r == spec_rect_of(table@, h),
{
    let mut i: usize = 0;
    proof {
        assert(table@.skip(0) =~= table@);
    }
    while i < table.len()
        invariant
            0 <= i <= table@.len(),
            spec_rect_of(table@, h) == spec_rect_of(table@.skip(i as int), h),
        decreases table@.len() - i,
    {
        proof {
            assert(table@.skip(i as int)[0] == table@[i as int]);
            assert(table@.skip(i as int).drop_first() =~= table@.skip(i + 1));
        }
        if table[i].hwnd == h {
            return table[i].rect;
        }
        i += 1;
    }
    None
}

/// The current geometry of the first titled window of the named process, as
/// a fully specified request; an error exactly when no such window has a
/// readable rectangle.
pub fn get_window_position(
    processes: &Vec<ProcessInfo>,
    table: &Vec<RawWindow>,
    process_name: &str,
) -> (r: Result<WindowConfig, String>)
    ensures
        ({
            let ws = spec_windows_of_process_name(processes@, table@, process_name@);
            match r {
                Ok(c) => ws.len() > 0 && (spec_rect_of(table@, ws[0].hwnd) matches Some(rc)
                    && c.x == Some(rc.x) && c.y == Some(rc.y) && c.width == Some(rc.width)
                    && c.height == Some(rc.height)),
                Err(m) => (ws.len() == 0 || spec_rect_of(table@, ws[0].hwnd) is None) && m@
                    == "No window found for process: "@ + process_name@,
            }
        }),
{
    let ws = get_windows_by_process_name(processes, table, process_name);
    if ws.len() > 0 {
        match rect_of(table, ws[0].hwnd) {
            Some(rc) => {
                return Ok(
                    WindowConfig {
                        x: Some(rc.x),
                        y: Some(rc.y),
                        width: Some(rc.width),
                        height: Some(rc.height),
                    },
                );
            },
            None => {},
        }
    }
    let mut m = String::from_str("No window found for process: ");
    m.append(process_name);
    Err(m)
}

/// The handles that are new since a snapshot: present in `after`, absent from
/// `before`.
pub open spec fn spec_new_handle_set(before: Seq<i64>, after: Seq<TitledWindow>) -> Set<i64> {
    spec_handles(after).to_set().difference(before.to_set())
}

/// When the table gained exactly one handle `c` since the snapshot, the diff
/// is exactly `{c}`: identity-based diffing finds precisely the new window.
pub proof fn lemma_snapshot_diff_singleton(before: Seq<i64>, after: Seq<TitledWindow>, c: i64)
    requires
        spec_handles(after).to_set() == before.to_set().insert(c),
        !before.contains(c),
    ensures
        spec_new_handle_set(before, after) =~= set![c],
{
    assert(!before.to_set().contains(c));
}

/// The scan that picks the first window absent from the snapshot agrees with
/// the diff set: its pick lies in the set of new handles, and it comes back
/// empty exactly when that set is empty.
pub proof fn lemma_first_new_agrees_with_diff(before: Seq<i64>, after: Seq<TitledWindow>)
    ensures
        match spec_first_new(before, after) {
            Some(h) => spec_new_handle_set(before, after).contains(h),
            None => spec_new_handle_set(before, after) =~= Set::<i64>::empty(),
        },
    decreases after.len(),
{
    if after.len() == 0 {
        assert forall|x: i64| !spec_new_handle_set(before, after).contains(x) by {
            if spec_handles(after).contains(x) {
                let i = choose|i: int|
                    0 <= i < spec_handles(after).len() && spec_handles(after)[i] == x;
            }
        }
    } else if !before.contains(after[0].hwnd) {
        let h = after[0].hwnd;
        assert(spec_handles(after)[0] == h);
        assert(spec_handles(after).contains(h));
        assert(!before.to_set().contains(h));
    } else {
        lemma_first_new_agrees_with_diff(before, after.drop_first());
        assert(spec_handles(after.drop_first()) =~= spec_handles(after).drop_first());
        match spec_first_new(before, after.drop_first()) {
            Some(h) => {
                assert(spec_handles(after.drop_first()).contains(h));
                let i = choose|i: int|
                    0 <= i < spec_handles(after.drop_first()).len() && spec_handles(
                        after.drop_first(),
                    )[i] == h;
                assert(spec_handles(after)[i + 1] == h);
                assert(spec_handles(after).contains(h));
            },
            None => {
                assert forall|x: i64| !spec_new_handle_set(before, after).contains(x) by {
                    if spec_handles(after).contains(x) && !before.contains(x) {
                        let i = choose|i: int|
                            0 <= i < spec_handles(after).len() && spec_handles(after)[i]
                                == x;
                        if i == 0 {
                            assert(x == after[0].hwnd);
                        } else {
                            assert(spec_handles(after.drop_first())[i - 1] == x);
                            assert(spec_handles(after.drop_first()).contains(x));
                            assert(spec_new_handle_set(
                                before,
                                after.drop_first(),
                            ).contains(x));
                        }
                    }
                }
            },
        }
    }
}

} // verus!
