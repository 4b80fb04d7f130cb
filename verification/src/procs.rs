//! The live process table: listing, the kill signal, and the display
//! ordering. The table itself comes from the operating system; the ordering
//! and deduplication rules are verified here.

use vstd::prelude::*;

use crate::data::ProcessInfo;
use crate::text::{
    lemma_seq_char_le_antisym, lemma_seq_char_le_total, lemma_seq_char_le_trans, lower_of,
    lowercase, seq_char_le, str_le,
};

verus! {

/// Relies on sysinfo's `System::new_all`, `refresh_processes`, `processes`,
/// `Process::name` and `Process::memory`: reads the live process table. What
/// is running depends on the machine at that instant, so nothing further is
/// promised of the list.
#[verifier::external_body]
fn read_process_table() -> (r: Vec<ProcessInfo>) {
    let mut sys = sysinfo::System::new_all();
    sys.refresh_processes(sysinfo::ProcessesToUpdate::All, true);
    sys.processes()
        .iter()
        .map(
            |(pid, p)|
                ProcessInfo {
                    pid: pid.as_u32(),
                    name: p.name().to_string_lossy().to_string(),
                    memory_usage: p.memory(),
                },
        )
        .collect()
}

/// Relies on sysinfo's `Process::kill`: signals termination to the process
/// with this id, reporting whether a signal was sent. The outcome depends on
/// the live process table.
#[verifier::external_body]
fn send_kill_signal(pid: u32) -> (r: bool) {
    let sys = sysinfo::System::new_all();
    match sys.process(sysinfo::Pid::from_u32(pid)) {
        Some(p) => p.kill(),
        None => false,
    }
}

/// The live process table, one record per running process. The list reflects
/// the machine's state at the call; nothing is promised of its contents.
pub fn list_running_processes() -> (r: Vec<ProcessInfo>) {
    read_process_table()
}

/// Signals termination to one process, best-effort; reports whether a signal
/// was sent. The process is not waited for.
pub fn kill_process(pid: u32) -> (r: bool) {
    send_kill_signal(pid)
}

/// The display key of a process record: its name after case folding.
pub open spec fn spec_proc_key(p: ProcessInfo) -> Seq<char> {
    lower_of(p.name@)
}

/// Strictly ascending by display key: sorted, with no key repeated.
pub open spec fn spec_sorted_distinct(r: Seq<ProcessInfo>) -> bool {
    forall|i: int, j: int|
        0 <= i < j < r.len() ==> seq_char_le(
            spec_proc_key(#[trigger] r[i]),
            spec_proc_key(#[trigger] r[j]),
        ) && spec_proc_key(r[i]) != spec_proc_key(r[j])
}

/// The position where `key` stands or belongs in the key-sorted `r`.
fn find_key_pos(r: &Vec<ProcessInfo>, key: &String) -> (res: (usize, bool))
    requires
        spec_sorted_distinct(r@),
    ensures
        res.0 <= r@.len(),
        forall|k: int|
            0 <= k < res.0 ==> seq_char_le(spec_proc_key(#[trigger] r@[k]), key@)
                && spec_proc_key(r@[k]) != key@,
        res.1 ==> res.0 < r@.len() && spec_proc_key(r@[res.0 as int]) == key@,
        !res.1 && res.0 < r@.len() ==> !seq_char_le(spec_proc_key(r@[res.0 as int]), key@),
{
    let mut pos: usize = 0;
    while pos < r.len()
        invariant
            0 <= pos <= r@.len(),
            forall|k: int|
                0 <= k < pos ==> seq_char_le(spec_proc_key(#[trigger] r@[k]), key@)
                    && spec_proc_key(r@[k]) != key@,
        decreases r@.len() - pos,
    {
        let lo = lowercase(r[pos].name.as_str());
        if lo.eq(key) {
            return (pos, true);
        }
        if !str_le(lo.as_str(), key.as_str()) {
            return (pos, false);
        }
        pos += 1;
    }
    (pos, false)
}

/// `p` is one of the first `n` records of `list`.
pub open spec fn spec_from_list(p: ProcessInfo, list: Seq<ProcessInfo>, n: int) -> bool {
    exists|j: int| 0 <= j < n && p == #[trigger] list[j]
}

/// Some record of `r` carries the display key `key`.
pub open spec fn spec_key_present(key: Seq<char>, r: Seq<ProcessInfo>) -> bool {
    exists|i: int| 0 <= i < r.len() && spec_proc_key(#[trigger] r[i]) == key
}

/// Membership in a prefix extends to any longer prefix.
proof fn lemma_from_list_mono(p: ProcessInfo, list: Seq<ProcessInfo>, n: int, m: int)
    requires
        spec_from_list(p, list, n),
        n <= m,
    ensures
        spec_from_list(p, list, m),
{
    let j0 = choose|j0: int| 0 <= j0 < n && p == #[trigger] list[j0];
    assert(0 <= j0 < m && p == list[j0]);
}

/// A key present before an insertion is present after it.
proof fn lemma_key_present_insert(
    key: Seq<char>,
    old_r: Seq<ProcessInfo>,
    new_r: Seq<ProcessInfo>,
    pos: int,
    p: ProcessInfo,
)
    requires
        spec_key_present(key, old_r),
        0 <= pos <= old_r.len(),
        new_r == old_r.insert(pos, p),
    ensures
        spec_key_present(key, new_r),
{
    let i0 = choose|i0: int| 0 <= i0 < old_r.len() && spec_proc_key(#[trigger] old_r[i0]) == key;
    if i0 < pos {
        assert(new_r[i0] == old_r[i0]);
        assert(0 <= i0 < new_r.len() && spec_proc_key(new_r[i0]) == key);
    } else {
        assert(new_r[i0 + 1] == old_r[i0]);
        assert(0 <= i0 + 1 < new_r.len() && spec_proc_key(new_r[i0 + 1]) == key);
    }
}

/// One process per case-folded name, in ascending key order: the result is
/// sorted strictly by key, every record is drawn from `list`, and every key
/// occurring in `list` is represented.
#[verifier::rlimit(100)]
pub fn sorted_unique_processes(list: &Vec<ProcessInfo>) -> (r: Vec<ProcessInfo>)
    ensures
        spec_sorted_distinct(r@),
        forall|i: int|
            0 <= i < r@.len() ==> spec_from_list(#[trigger] r@[i], list@, list@.len() as int),
        forall|j: int|
            0 <= j < list@.len() ==> spec_key_present(
                spec_proc_key(#[trigger] list@[j]),
                r@,
            ),
{
    let mut r: Vec<ProcessInfo> = Vec::new();
    let mut n: usize = 0;
    while n < list.len()
        invariant
            0 <= n <= list@.len(),
            spec_sorted_distinct(r@),
            forall|i: int|
                0 <= i < r@.len() ==> spec_from_list(#[trigger] r@[i], list@, n as int),
            forall|j: int|
                0 <= j < n ==> spec_key_present(spec_proc_key(#[trigger] list@[j]), r@),
        decreases list@.len() - n,
    {
        let key = lowercase(list[n].name.as_str());
        let found = find_key_pos(&r, &key);
        let pos = found.0;
        if !found.1 {
            let ghost old_r = r@;
            let p = ProcessInfo {
                pid: list[n].pid,
                name: list[n].name.clone(),
                memory_usage: list[n].memory_usage,
            };
            proof {
                assert(p == list@[n as int]);
                assert(spec_proc_key(p) == key@);
            }
            r.insert(pos, p);
            proof {
                let new_r = r@;
                assert(new_r =~= old_r.insert(pos as int, p));
                // Every key at or after the insertion point is strictly
                // above the new key.
                assert forall|k: int| pos <= k < old_r.len() implies seq_char_le(
                    key@,
                    spec_proc_key(#[trigger] old_r[k]),
                ) && spec_proc_key(old_r[k]) != key@ by {
                    lemma_seq_char_le_total(spec_proc_key(old_r[pos as int]), key@);
                    if spec_proc_key(old_r[pos as int]) == key@ {
                        lemma_seq_char_le_total(key@, key@);
                    }
                    assert(seq_char_le(key@, spec_proc_key(old_r[pos as int])));
                    if k > pos {
                        lemma_seq_char_le_trans(
                            key@,
                            spec_proc_key(old_r[pos as int]),
                            spec_proc_key(old_r[k]),
                        );
                        if spec_proc_key(old_r[k]) == key@ {
                            lemma_seq_char_le_antisym(
                                key@,
                                spec_proc_key(old_r[pos as int]),
                            );
                        }
                    } else {
                        if spec_proc_key(old_r[k]) == key@ {
                            lemma_seq_char_le_total(key@, key@);
                        }
                    }
                }
                assert forall|i: int, j: int|
                    0 <= i < j < new_r.len() implies seq_char_le(
                    spec_proc_key(#[trigger] new_r[i]),
                    spec_proc_key(#[trigger] new_r[j]),
                ) && spec_proc_key(new_r[i]) != spec_proc_key(new_r[j]) by {
                    if j < pos {
                    } else if i < pos && j == pos {
                        assert(new_r[i] == old_r[i]);
                        assert(new_r[j] == p);
                        lemma_seq_char_le_total(spec_proc_key(old_r[i]), key@);
                    } else if i < pos && j > pos {
                        assert(new_r[i] == old_r[i]);
                        assert(new_r[j] == old_r[j - 1]);
                    } else if i == pos && j > pos {
                        assert(new_r[i] == p);
                        assert(new_r[j] == old_r[j - 1]);
                    } else {
                        assert(new_r[i] == old_r[i - 1]);
                        assert(new_r[j] == old_r[j - 1]);
                    }
                }
                // Every record of the grown list is drawn from the input.
                assert forall|i: int|
                    0 <= i < new_r.len() implies spec_from_list(
                    #[trigger] new_r[i],
                    list@,
                    n + 1,
                ) by {
                    if i < pos {
                        assert(new_r[i] == old_r[i]);
                        lemma_from_list_mono(old_r[i], list@, n as int, n + 1);
                    } else if i == pos {
                        assert(new_r[i] == list@[n as int]);
                    } else {
                        assert(new_r[i] == old_r[i - 1]);
                        lemma_from_list_mono(old_r[i - 1], list@, n as int, n + 1);
                    }
                }
                // Every key seen so far is still represented.
                assert forall|j: int|
                    0 <= j < n + 1 implies spec_key_present(
                    spec_proc_key(#[trigger] list@[j]),
                    new_r,
                ) by {
                    if j == n {
                        assert(new_r[pos as int] == p);
                        assert(0 <= pos < new_r.len() && spec_proc_key(new_r[pos as int])
                            == spec_proc_key(list@[n as int]));
                    } else {
                        lemma_key_present_insert(
                            spec_proc_key(list@[j]),
                            old_r,
                            new_r,
                            pos as int,
                            p,
                        );
                    }
                }
            }
        } else {
            proof {
                assert(spec_proc_key(r@[pos as int]) == spec_proc_key(list@[n as int]));
                assert forall|j: int|
                    0 <= j < n + 1 implies spec_key_present(
                    spec_proc_key(#[trigger] list@[j]),
                    r@,
                ) by {
                    if j == n {
                        assert(0 <= pos < r@.len() && spec_proc_key(r@[pos as int])
                            == spec_proc_key(list@[n as int]));
                    }
                }
            }
        }
        n += 1;
    }
    proof {
        assert forall|i: int|
            0 <= i < r@.len() implies spec_from_list(
            #[trigger] r@[i],
            list@,
            list@.len() as int,
        ) by {
            lemma_from_list_mono(r@[i], list@, n as int, list@.len() as int);
        }
    }
    r
}

/// The process list for display: the live table, one record per case-folded
/// name, in ascending name order.
pub fn get_process_list() -> (r: Vec<ProcessInfo>)
    ensures
        spec_sorted_distinct(r@),
{
    let raw = read_process_table();
    sorted_unique_processes(&raw)
}

} // verus!
