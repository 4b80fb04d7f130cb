//! Browser knowledge for opening URLs: the known browser processes, the
//! fixed fallback install paths, the per-browser new-window flag, and the
//! parser that extracts an executable path from a shell `open` command line.

use vstd::prelude::*;

use crate::text::{lower_of, lowercase, spec_contains_seq, str_contains};

verus! {

/// The process names of the known browsers, in the order they are tried.
pub open spec fn spec_browser_name(i: int) -> Seq<char> {
    if i == 0 {
        "chrome.exe"@
    } else if i == 1 {
        "msedge.exe"@
    } else if i == 2 {
        "firefox.exe"@
    } else if i == 3 {
        "brave.exe"@
    } else {
        "opera.exe"@
    }
}

/// The process name of the known browser at `i`.
pub fn browser_name(i: usize) -> (r: &'static str)
    requires
        i < 5,
    ensures
        r@ == spec_browser_name(i as int),
{
    if i == 0 {
        "chrome.exe"
    } else if i == 1 {
        "msedge.exe"
    } else if i == 2 {
        "firefox.exe"
    } else if i == 3 {
        "brave.exe"
    } else {
        "opera.exe"
    }
}

/// The fixed, priority-ordered browser install paths probed when the
/// URL-association lookup yields nothing usable.
pub open spec fn spec_candidate_path(i: int) -> Seq<char> {
    if i == 0 {
        "C:\\Program Files (x86)\\Microsoft\\Edge\\Application\\msedge.exe"@
    } else if i == 1 {
        "C:\\Program Files\\Microsoft\\Edge\\Application\\msedge.exe"@
    } else if i == 2 {
        "C:\\Program Files\\Google\\Chrome\\Application\\chrome.exe"@
    } else if i == 3 {
        "C:\\Program Files (x86)\\Google\\Chrome\\Application\\chrome.exe"@
    } else if i == 4 {
        "C:\\Program Files\\Mozilla Firefox\\firefox.exe"@
    } else {
        "C:\\Program Files\\BraveSoftware\\Brave-Browser\\Application\\brave.exe"@
    }
}

/// The new-window flag used with the candidate at `i`.
pub open spec fn spec_candidate_flag(i: int) -> Seq<char> {
    if i == 4 {
        "-new-window"@
    } else {
        "--new-window"@
    }
}

/// The install path probed at position `i`.
pub fn candidate_path(i: usize) -> (r: &'static str)
    requires
        i < 6,
    ensures
        r@ == spec_candidate_path(i as int),
{
    if i == 0 {
        "C:\\Program Files (x86)\\Microsoft\\Edge\\Application\\msedge.exe"
    } else if i == 1 {
        "C:\\Program Files\\Microsoft\\Edge\\Application\\msedge.exe"
    } else if i == 2 {
        "C:\\Program Files\\Google\\Chrome\\Application\\chrome.exe"
    } else if i == 3 {
        "C:\\Program Files (x86)\\Google\\Chrome\\Application\\chrome.exe"
    } else if i == 4 {
        "C:\\Program Files\\Mozilla Firefox\\firefox.exe"
    } else {
        "C:\\Program Files\\BraveSoftware\\Brave-Browser\\Application\\brave.exe"
    }
}

/// The new-window flag used with the candidate at `i`.
pub fn candidate_flag(i: usize) -> (r: &'static str)
    requires
        i < 6,
    ensures
        r@ == spec_candidate_flag(i as int),
{
    if i == 4 {
        "-new-window"
    } else {
        "--new-window"
    }
}

/// The flag that forces a new window, keyed by the browser's executable
/// file name: one browser family spells it with a single dash, unknown
/// browsers get the generic spelling.
pub open spec fn spec_new_window_flag(exe_name: Seq<char>) -> Seq<char> {
    if spec_contains_seq(lower_of(exe_name), "firefox"@) {
        "-new-window"@
    } else {
        "--new-window"@
    }
}

/// Chooses the new-window flag for the browser whose executable file name
/// is `exe_name`.
pub fn new_window_flag(exe_name: &str) -> (r: &'static str)
    ensures
        r@ == spec_new_window_flag(exe_name@),
{
    let lower = lowercase(exe_name);
    if str_contains(lower.as_str(), "firefox") {
        "-new-window"
    } else {
        "--new-window"
    }
}

/// The characters this parser strips from either end of a command line.
pub open spec fn spec_is_ws(c: char) -> bool {
    c == ' ' || c == '\t' || c == '\n' || c == '\r'
}

/// `s` without leading whitespace.
pub open spec fn spec_trim_start(s: Seq<char>) -> Seq<char>
    decreases s.len(),
{
    if s.len() == 0 {
        s
    } else if spec_is_ws(s[0]) {
        spec_trim_start(s.drop_first())
    } else {
        s
    }
}

/// `s` without trailing whitespace.
pub open spec fn spec_trim_end(s: Seq<char>) -> Seq<char>
    decreases s.len(),
{
    if s.len() == 0 {
        s
    } else if spec_is_ws(s.last()) {
        spec_trim_end(s.drop_last())
    } else {
        s
    }
}

/// `s` without leading or trailing whitespace.
pub open spec fn spec_trim(s: Seq<char>) -> Seq<char> {
    spec_trim_end(spec_trim_start(s))
}

/// The first position at or after `i` where `c` stands in `s`.
pub open spec fn spec_find_from(s: Seq<char>, c: char, i: int) -> Option<int>
    decreases s.len() - i when 0 <= i <= s.len()
{
    if i >= s.len() {
        None
    } else if s[i] == c {
        Some(i)
    } else {
        spec_find_from(s, c, i + 1)
    }
}

/// The executable path extracted from a shell `open` command line: the
/// quoted prefix if the line starts with a double quote (none if the quote
/// never closes), else the part before the first space, else the whole
/// trimmed line.
pub open spec fn spec_extract_command_path(cmd: Seq<char>) -> Option<Seq<char>> {
    let t = spec_trim(cmd);
    if t.len() > 0 && t[0] == '"' {
        match spec_find_from(t, '"', 1) {
            Some(j) => Some(t.subrange(1, j)),
            None => None,
        }
    } else {
        match spec_find_from(t, ' ', 0) {
            Some(j) => Some(t.subrange(0, j)),
            None => Some(t),
        }
    }
}

/// Whether `c` is trimmed whitespace.
fn is_ws_char(c: char) -> (r: bool)
    ensures
        r == spec_is_ws(c),
{
    c == ' ' || c == '\t' || c == '\n' || c == '\r'
}

/// The first position in `s` that is not whitespace.
fn trim_start_idx(s: &str, n: usize) -> (start: usize)
    requires
        n == s@.len(),
    ensures
        start <= n,
        spec_trim_start(s@) == s@.skip(start as int),
{
    let mut start: usize = 0;
    proof {
        assert(s@.skip(0) =~= s@);
    }
    while start < n
        invariant
            n == s@.len(),
            0 <= start <= n,
            spec_trim_start(s@) == spec_trim_start(s@.skip(start as int)),
        decreases n - start,
    {
        proof {
            assert(s@.skip(start as int)[0] == s@[start as int]);
            assert(s@.skip(start as int).drop_first() =~= s@.skip(start + 1));
        }
        if !is_ws_char(s.get_char(start)) {
            return start;
        }
        start += 1;
    }
    proof {
        assert(s@.skip(start as int).len() == 0);
    }
    start
}

/// The position after the last non-whitespace character at or after `start`.
fn trim_end_idx(s: &str, n: usize, start: usize) -> (end: usize)
    requires
        n == s@.len(),
        start <= n,
    ensures
        start <= end <= n,
        spec_trim_end(s@.subrange(start as int, n as int)) == s@.subrange(
            start as int,
            end as int,
        ),
{
    let mut end: usize = n;
    proof {
        assert(s@.subrange(start as int, n as int) =~= s@.subrange(start as int, end as int));
    }
    while end > start
        invariant
            n == s@.len(),
            start <= end <= n,
            spec_trim_end(s@.subrange(start as int, n as int)) == spec_trim_end(
                s@.subrange(start as int, end as int),
            ),
        decreases end,
    {
        proof {
            assert(s@.subrange(start as int, end as int).last() == s@[end - 1]);
            assert(s@.subrange(start as int, end as int).drop_last() =~= s@.subrange(
                start as int,
                end - 1,
            ));
        }
        if !is_ws_char(s.get_char(end - 1)) {
            return end;
        }
        end -= 1;
    }
    proof {
        assert(s@.subrange(start as int, end as int).len() == 0);
    }
    end
}

/// The subrange of `s` left after trimming whitespace from both ends.
fn trim_str(s: &str) -> (r: String)
    ensures
        r@ == spec_trim(s@),
{
    let n = s.unicode_len();
    let start = trim_start_idx(s, n);
    let end = trim_end_idx(s, n, start);
    proof {
        assert(s@.skip(start as int) =~= s@.subrange(start as int, n as int));
    }
    let r = s.substring_char(start, end);
    r.to_owned()
}

/// The first position at or after `from` where `c` stands in `s`.
fn find_char_from(s: &str, n: usize, c: char, from: usize) -> (r: Option<usize>)
    requires
        n == s@.len(),
        from <= n,
    ensures
        match r {
            Some(j) => from <= j < n && spec_find_from(s@, c, from as int) == Some(j as int),
            None => spec_find_from(s@, c, from as int) is None,
        },
{
    let mut i: usize = from;
    while i < n
        invariant
            n == s@.len(),
            from <= i <= n,
            spec_find_from(s@, c, from as int) == spec_find_from(s@, c, i as int),
        decreases n - i,
    {
        if s.get_char(i) == c {
            return Some(i);
        }
        i += 1;
    }
    None
}

/// Extracts the executable path from a shell `open` command line, as
/// `spec_extract_command_path` describes.
pub fn extract_command_path(cmd: &str) -> (r: Option<String>)
    ensures
        match r {
            Some(p) => spec_extract_command_path(cmd@) == Some(p@),
            None => spec_extract_command_path(cmd@) is None,
        },
{
    let t = trim_str(cmd);
    let tn = t.as_str().unicode_len();
    if tn > 0 && t.as_str().get_char(0) == '"' {
        match find_char_from(t.as_str(), tn, '"', 1) {
            Some(j) => Some(t.as_str().substring_char(1, j).to_owned()),
            None => None,
        }
    } else {
        match find_char_from(t.as_str(), tn, ' ', 0) {
            Some(j) => Some(t.as_str().substring_char(0, j).to_owned()),
            None => Some(t),
        }
    }
}

} // verus!
