//! Rules for the installed-application listing: cleaning registry icon
//! values, skipping system components and installer executables, collecting
//! start-menu links without duplicates, and the display ordering.
//!
//! What the registry and the disk hold is read by the caller; every rule
//! applied to the values read is verified here.

use vstd::prelude::*;

use crate::browser::spec_find_from;
use crate::data::InstalledApp;
use crate::text::{
    lemma_seq_char_le_total, lemma_seq_char_le_trans, lower_of, lowercase, seq_char_le,
    spec_contains_seq, spec_file_name, str_contains, str_le, str_starts_with,
};

verus! {

/// `s` without leading double quotes.
pub open spec fn spec_trim_quotes_start(s: Seq<char>) -> Seq<char>
    decreases s.len(),
{
    if s.len() == 0 {
        s
    } else if s[0] == '"' {
        spec_trim_quotes_start(s.drop_first())
    } else {
        s
    }
}

/// `s` without trailing double quotes.
pub open spec fn spec_trim_quotes_end(s: Seq<char>) -> Seq<char>
    decreases s.len(),
{
    if s.len() == 0 {
        s
    } else if s.last() == '"' {
        spec_trim_quotes_end(s.drop_last())
    } else {
        s
    }
}

/// The executable path named by a registry icon value: quotes stripped from
/// both ends, and anything from the first comma (an icon index) dropped.
pub open spec fn spec_clean_icon_path(s: Seq<char>) -> Seq<char> {
    let t = spec_trim_quotes_end(spec_trim_quotes_start(s));
    match spec_find_from(t, ',', 0) {
        Some(j) => t.subrange(0, j),
        None => t,
    }
}

/// The first position in `s` that is not a double quote.
fn quote_start_idx(s: &str, n: usize) -> (start: usize)
    requires
        n == s@.len(),
    ensures
        start <= n,
        spec_trim_quotes_start(s@) == s@.skip(start as int),
{
    let mut start: usize = 0;
    proof {
        assert(s@.skip(0) =~= s@);
    }
    while start < n
        invariant
            n == s@.len(),
            0 <= start <= n,
            spec_trim_quotes_start(s@) == spec_trim_quotes_start(s@.skip(start as int)),
        decreases n - start,
    {
        proof {
            assert(s@.skip(start as int)[0] == s@[start as int]);
            assert(s@.skip(start as int).drop_first() =~= s@.skip(start + 1));
        }
        if s.get_char(start) != '"' {
            return start;
        }
        start += 1;
    }
    proof {
        assert(s@.skip(start as int).len() == 0);
    }
    start
}

/// The position after the last non-quote character at or after `start`.
fn quote_end_idx(s: &str, n: usize, start: usize) -> (end: usize)
    requires
        n == s@.len(),
        start <= n,
    ensures
        start <= end <= n,
        spec_trim_quotes_end(s@.subrange(start as int, n as int)) == s@.subrange(
            start as int,
            end as int,
        ),
{
    let mut end: usize = n;
    proof {
        assert(s@.subrange(start as int, n as int) =~= s@.subrange(start as int, end as int));
    }
    while end > start
        invariant
            n == s@.len(),
            start <= end <= n,
            spec_trim_quotes_end(s@.subrange(start as int, n as int)) == spec_trim_quotes_end(
                s@.subrange(start as int, end as int),
            ),
        decreases end,
    {
        proof {
            assert(s@.subrange(start as int, end as int).last() == s@[end - 1]);
            assert(s@.subrange(start as int, end as int).drop_last() =~= s@.subrange(
                start as int,
                end - 1,
            ));
        }
        if s.get_char(end - 1) != '"' {
            return end;
        }
        end -= 1;
    }
    proof {
        assert(s@.subrange(start as int, end as int).len() == 0);
    }
    end
}

/// Cleans a registry icon value down to the executable path it names.
pub fn clean_icon_path(icon: &str) -> (r: String)
    ensures
        r@ == spec_clean_icon_path(icon@),
{
    let n = icon.unicode_len();
    let start = quote_start_idx(icon, n);
    let end = quote_end_idx(icon, n, start);
    proof {
        assert(icon@.skip(start as int) =~= icon@.subrange(start as int, n as int));
    }
    let t = icon.substring_char(start, end);
    proof {
        assert(t@ == spec_trim_quotes_end(spec_trim_quotes_start(icon@)));
    }
    let tn = t.unicode_len();
    let mut j: usize = 0;
    while j < tn
        invariant
            tn == t@.len(),
            0 <= j <= tn,
            t@ == spec_trim_quotes_end(spec_trim_quotes_start(icon@)),
            spec_find_from(t@, ',', 0) == spec_find_from(t@, ',', j as int),
        decreases tn - j,
    {
        if t.get_char(j) == ',' {
            proof {
                assert(spec_find_from(t@, ',', j as int) == Some(j as int));
                assert(t@ == spec_trim_quotes_end(spec_trim_quotes_start(icon@)));
                assert(spec_clean_icon_path(icon@) == t@.subrange(0, j as int));
            }
            return t.substring_char(0, j).to_owned();
        }
        j += 1;
    }
    proof {
        assert(spec_find_from(t@, ',', j as int) is None);
        assert(t@ == spec_trim_quotes_end(spec_trim_quotes_start(icon@)));
        assert(spec_clean_icon_path(icon@) == t@);
    }
    t.to_owned()
}

/// Whether an uninstall-registry display name denotes a system component
/// (an update, a hotfix, a patch identifier) rather than an application.
pub fn is_system_component(name: &str) -> (r: bool)
    ensures
        r == (name@.len() >= 2 && name@.subrange(0, 2) == "KB"@ || spec_contains_seq(
            name@,
            "Update"@,
        ) || spec_contains_seq(name@, "Hotfix"@)),
{
    proof {
        reveal_strlit("KB");
    }
    str_starts_with(name, "KB") || str_contains(name, "Update") || str_contains(
        name,
        "Hotfix",
    )
}

/// Whether the executable at `path` looks like an application binary rather
/// than an installer, uninstaller or updater, judged by its file name.
pub open spec fn spec_app_exe(path: Seq<char>) -> bool {
    let nm = lower_of(spec_file_name(path));
    !spec_contains_seq(nm, "unins"@) && !spec_contains_seq(nm, "setup"@)
        && !spec_contains_seq(nm, "update"@)
}

/// The first listed executable that looks like an application binary, empty
/// when none does.
pub open spec fn spec_pick_exe(entries: Seq<String>) -> Seq<char>
    decreases entries.len(),
{
    if entries.len() == 0 {
        Seq::empty()
    } else if spec_app_exe(entries[0]@) {
        entries[0]@
    } else {
        spec_pick_exe(entries.drop_first())
    }
}

/// Picks the first executable among the listed paths whose file name names
/// no installer, uninstaller or updater; empty when none qualifies.
pub fn find_exe_in_dir(entries: &Vec<String>) -> (r: String)
    ensures
        r@ == spec_pick_exe(entries@),
{
    let mut i: usize = 0;
    proof {
        assert(entries@.skip(0) =~= entries@);
    }
    while i < entries.len()
        invariant
            0 <= i <= entries@.len(),
            spec_pick_exe(entries@) == spec_pick_exe(entries@.skip(i as int)),
        decreases entries@.len() - i,
    {
        proof {
            assert(entries@.skip(i as int)[0] == entries@[i as int]);
            assert(entries@.skip(i as int).drop_first() =~= entries@.skip(i + 1));
        }
        let name = crate::text::file_name_of(entries[i].as_str());
        let nm = lowercase(name.as_str());
        if !str_contains(nm.as_str(), "unins") && !str_contains(nm.as_str(), "setup")
            && !str_contains(nm.as_str(), "update") {
            return entries[i].clone();
        }
        i += 1;
    }
    proof {
        assert(entries@.skip(i as int).len() == 0);
    }
    String::new()
}

/// One start-menu link found by the directory scan: the link's file stem and
/// its full path.
pub struct ScanEntry {
    pub stem: String,
    pub path: String,
}

/// The name-and-path views of an application list.
pub open spec fn spec_app_views(apps: Seq<InstalledApp>) -> Seq<(Seq<char>, Seq<char>)> {
    apps.map_values(|a: InstalledApp| (a.name@, a.path@))
}

/// The lowered-name views of a seen-name list.
pub open spec fn spec_seen_views(seen: Seq<String>) -> Seq<Seq<char>> {
    seen.map_values(|s: String| s@)
}

/// Folds the scanned links into the accumulated applications and seen names:
/// a link is taken unless its lowered stem was seen or names an uninstaller.
pub open spec fn spec_lnk_fold(
    entries: Seq<ScanEntry>,
    apps: Seq<(Seq<char>, Seq<char>)>,
    seen: Seq<Seq<char>>,
) -> (Seq<(Seq<char>, Seq<char>)>, Seq<Seq<char>>)
    decreases entries.len(),
{
    if entries.len() == 0 {
        (apps, seen)
    } else {
        let k = lower_of(entries[0].stem@);
        if seen.contains(k) || spec_contains_seq(k, "uninstall"@) {
            spec_lnk_fold(entries.drop_first(), apps, seen)
        } else {
            spec_lnk_fold(
                entries.drop_first(),
                apps.push((entries[0].stem@, entries[0].path@)),
                seen.push(k),
            )
        }
    }
}

/// Whether some seen name equals `key`.
fn seen_contains(seen: &Vec<String>, key: &String) -> (r: bool)
    ensures
        r == spec_seen_views(seen@).contains(key@),
{
    let mut i: usize = 0;
    while i < seen.len()
        invariant
            0 <= i <= seen@.len(),
            forall|k: int| 0 <= k < i ==> seen@[k]@ != key@,
        decreases seen@.len() - i,
    {
        if seen[i].eq(key) {
            proof {
                assert(spec_seen_views(seen@)[i as int] == key@);
            }
            return true;
        }
        i += 1;
    }
    proof {
        assert forall|k: int|
            0 <= k < spec_seen_views(seen@).len() implies spec_seen_views(seen@)[k]
            != key@ by {
            assert(seen@[k]@ != key@);
        }
    }
    false
}

/// Adds the scanned start-menu links to the application list, one per
/// lowered stem, skipping uninstall links, exactly as `spec_lnk_fold` folds
/// them. Records already in the list are untouched; every added record
/// carries no icon.
pub fn add_shortcuts_from_dir(
    apps: &mut Vec<InstalledApp>,
    seen: &mut Vec<String>,
    entries: &Vec<ScanEntry>,
)
    ensures
        (
            spec_app_views(final(apps)@),
            spec_seen_views(final(seen)@),
        ) == spec_lnk_fold(
            entries@,
            spec_app_views(old(apps)@),
            spec_seen_views(old(seen)@),
        ),
        final(apps)@.len() >= old(apps)@.len(),
        forall|i: int| 0 <= i < old(apps)@.len() ==> final(apps)@[i] == old(apps)@[i],
        forall|i: int|
            old(apps)@.len() <= i < final(apps)@.len() ==> (#[trigger] final(apps)@[i]).icon
                is None,
{
    let mut i: usize = 0;
    proof {
        assert(entries@.skip(0) =~= entries@);
    }
    while i < entries.len()
        invariant
            0 <= i <= entries@.len(),
            spec_lnk_fold(
                entries@.skip(i as int),
                spec_app_views(apps@),
                spec_seen_views(seen@),
            ) == spec_lnk_fold(
                entries@,
                spec_app_views(old(apps)@),
                spec_seen_views(old(seen)@),
            ),
            apps@.len() >= old(apps)@.len(),
            forall|k: int| 0 <= k < old(apps)@.len() ==> apps@[k] == old(apps)@[k],
            forall|k: int|
                old(apps)@.len() <= k < apps@.len() ==> (#[trigger] apps@[k]).icon is None,
        decreases entries@.len() - i,
    {
        proof {
            assert(entries@.skip(i as int)[0] == entries@[i as int]);
            assert(entries@.skip(i as int).drop_first() =~= entries@.skip(i + 1));
        }
        let key = lowercase(entries[i].stem.as_str());
        if !seen_contains(seen, &key) && !str_contains(key.as_str(), "uninstall") {
            let app = InstalledApp {
                name: entries[i].stem.clone(),
                path: entries[i].path.clone(),
                icon: None,
            };
            proof {
                assert(spec_app_views(apps@.push(app)) =~= spec_app_views(apps@).push(
                    (entries@[i as int].stem@, entries@[i as int].path@),
                ));
                assert(spec_seen_views(seen@.push(key)) =~= spec_seen_views(seen@).push(
                    lower_of(entries@[i as int].stem@),
                ));
            }
            apps.push(app);
            seen.push(key);
        }
        i += 1;
    }
    proof {
        assert(entries@.skip(i as int).len() == 0);
    }
}

/// The display key of an application record: its name after case folding.
pub open spec fn spec_app_key(a: InstalledApp) -> Seq<char> {
    lower_of(a.name@)
}

/// Ascending by display key.
pub open spec fn spec_apps_sorted(r: Seq<InstalledApp>) -> bool {
    forall|i: int, j: int|
        0 <= i < j < r.len() ==> seq_char_le(
            spec_app_key(#[trigger] r[i]),
            spec_app_key(#[trigger] r[j]),
        )
}

/// The position where `key` belongs in the key-sorted `r`: after every
/// record whose key does not exceed it.
fn app_insert_pos(r: &Vec<InstalledApp>, key: &String) -> (pos: usize)
    ensures
        pos <= r@.len(),
        forall|k: int| 0 <= k < pos ==> seq_char_le(spec_app_key(#[trigger] r@[k]), key@),
        pos < r@.len() ==> !seq_char_le(spec_app_key(r@[pos as int]), key@),
{
    let mut pos: usize = 0;
    while pos < r.len()
        invariant
            0 <= pos <= r@.len(),
            forall|k: int| 0 <= k < pos ==> seq_char_le(spec_app_key(#[trigger] r@[k]), key@),
        decreases r@.len() - pos,
    {
        let lo = lowercase(r[pos].name.as_str());
        if !str_le(lo.as_str(), key.as_str()) {
            return pos;
        }
        pos += 1;
    }
    pos
}

/// Sorts the applications by their case-folded name, keeping exactly the
/// given records: the result is ascending by key and holds the same records
/// with the same multiplicities.
#[verifier::rlimit(100)]
pub fn sort_installed_apps(list: Vec<InstalledApp>) -> (r: Vec<InstalledApp>)
    ensures
        spec_apps_sorted(r@),
        r@.to_multiset() == list@.to_multiset(),
{
    broadcast use vstd::seq_lib::group_to_multiset_ensures;

    let mut r: Vec<InstalledApp> = Vec::new();
    let mut list = list;
    let ghost orig = list@;
    proof {
        assert(orig.skip(0) =~= orig);
    }
    let mut n: usize = 0;
    while n < list.len()
        invariant
            list@ == orig,
            0 <= n <= orig.len(),
            spec_apps_sorted(r@),
            r@.to_multiset() == orig.take(n as int).to_multiset(),
        decreases orig.len() - n,
    {
        let p = InstalledApp {
            name: list[n].name.clone(),
            path: list[n].path.clone(),
            icon: match &list[n].icon {
                Some(s) => Some(s.clone()),
                None => None,
            },
        };
        proof {
            assert(p == orig[n as int]);
        }
        let key = lowercase(p.name.as_str());
        let pos = app_insert_pos(&r, &key);
        let ghost old_r = r@;
        r.insert(pos, p);
        proof {
            let new_r = r@;
            assert(new_r =~= old_r.insert(pos as int, p));
            assert forall|k: int| pos <= k < old_r.len() implies seq_char_le(
                key@,
                spec_app_key(#[trigger] old_r[k]),
            ) by {
                lemma_seq_char_le_total(spec_app_key(old_r[pos as int]), key@);
                if k > pos {
                    lemma_seq_char_le_trans(
                        key@,
                        spec_app_key(old_r[pos as int]),
                        spec_app_key(old_r[k]),
                    );
                }
            }
            assert forall|i: int, j: int|
                0 <= i < j < new_r.len() implies seq_char_le(
                spec_app_key(#[trigger] new_r[i]),
                spec_app_key(#[trigger] new_r[j]),
            ) by {
                if j < pos {
                } else if i < pos && j == pos {
                    assert(new_r[i] == old_r[i]);
                    assert(new_r[j] == p);
                } else if i < pos && j > pos {
                    assert(new_r[i] == old_r[i]);
                    assert(new_r[j] == old_r[j - 1]);
                } else if i == pos && j > pos {
                    assert(new_r[i] == p);
                    assert(new_r[j] == old_r[j - 1]);
                } else {
                    assert(new_r[i] == old_r[i - 1]);
                    assert(new_r[j] == old_r[j - 1]);
                }
            }
            // The insertion adds exactly one copy of the new record.
            new_r.to_multiset_ensures();
            old_r.to_multiset_ensures();
            orig.take(n as int).to_multiset_ensures();
            assert(new_r.remove(pos as int) =~= old_r);
            assert(new_r.remove(pos as int).to_multiset() =~= new_r.to_multiset().remove(
                new_r[pos as int],
            ));
            assert(new_r.contains(p)) by {
                assert(new_r[pos as int] == p);
            }
            assert(new_r.to_multiset().count(p) > 0);
            assert(old_r.to_multiset() =~= new_r.to_multiset().remove(p));
            assert(new_r.to_multiset() =~= old_r.to_multiset().insert(p));
            assert(orig.take(n + 1) =~= orig.take(n as int).push(orig[n as int]));
            assert(orig.take(n + 1).to_multiset() =~= orig.take(
                n as int,
            ).to_multiset().insert(orig[n as int]));
        }
        n += 1;
    }
    proof {
        assert(orig.take(orig.len() as int) =~= orig);
    }
    r
}

} // verus!
