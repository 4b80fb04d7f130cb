//! Character-level text helpers shared by the engine.
//!
//! All contracts are stated over `Seq<char>` views. Case folding is the one
//! operation delegated to the standard library; everything else is verified
//! here.

use vstd::prelude::*;

verus! {

/// The two characters this library treats as path separators.
pub open spec fn is_path_sep(c: char) -> bool {
    c == '/' || c == '\\'
}

/// `s` with every trailing path separator removed.
pub open spec fn spec_strip_trailing_seps(s: Seq<char>) -> Seq<char>
    decreases s.len(),
{
    if s.len() == 0 {
        s
    } else if is_path_sep(s.last()) {
        spec_strip_trailing_seps(s.drop_last())
    } else {
        s
    }
}

/// The suffix of `s` after its last path separator (all of `s` if none).
pub open spec fn spec_after_last_sep(s: Seq<char>) -> Seq<char>
    decreases s.len(),
{
    if s.len() == 0 {
        s
    } else if is_path_sep(s.last()) {
        Seq::empty()
    } else {
        spec_after_last_sep(s.drop_last()).push(s.last())
    }
}

/// Stripping trailing separators never lengthens a sequence.
pub proof fn lemma_strip_len(s: Seq<char>)
    ensures
        spec_strip_trailing_seps(s).len() <= s.len(),
    decreases s.len(),
{
    if s.len() > 0 && is_path_sep(s.last()) {
        lemma_strip_len(s.drop_last());
    }
}

/// Whether `c` can open a drive designator.
pub open spec fn is_drive_letter(c: char) -> bool {
    ('a' as int) <= (c as int) <= ('z' as int) || ('A' as int) <= (c as int) <= ('Z' as int)
}

/// The file-name rule of this library, following the platform's path rules:
/// trailing separators are ignored, as are trailing `.` components; the name
/// is what follows the last remaining separator; a lone drive designator (a
/// letter and a colon) carries no file name and is skipped before its
/// relative remainder; and a final `..` component is no file name.
pub open spec fn spec_file_name(s: Seq<char>) -> Seq<char>
    decreases s.len(),
    via spec_file_name_decreases
{
    let t = spec_strip_trailing_seps(s);
    if t.len() == 0 {
        Seq::empty()
    } else if t == seq!['.'] {
        Seq::empty()
    } else if t.len() >= 2 && t.last() == '.' && is_path_sep(t[t.len() - 2]) {
        spec_file_name(t.drop_last())
    } else {
        let tail = spec_after_last_sep(t);
        if tail == t && t.len() >= 2 && t[1] == ':' && is_drive_letter(t[0]) {
            let rest = t.skip(2);
            if rest.len() == 0 || rest == seq!['.'] || rest == seq!['.', '.'] {
                Seq::empty()
            } else {
                rest
            }
        } else if tail == seq!['.', '.'] {
            Seq::empty()
        } else {
            tail
        }
    }
}

#[via_fn]
proof fn spec_file_name_decreases(s: Seq<char>) {
    lemma_strip_len(s);
}

/// The file name depends only on the separator-stripped path.
proof fn lemma_file_name_same_strip(x: Seq<char>, y: Seq<char>)
    requires
        spec_strip_trailing_seps(x) == spec_strip_trailing_seps(y),
    ensures
        spec_file_name(x) == spec_file_name(y),
{
}

/// `needle` occurs in `hay` starting at position `i`.
pub open spec fn occurs_at(hay: Seq<char>, needle: Seq<char>, i: int) -> bool {
    0 <= i && i + needle.len() <= hay.len() && hay.subrange(i, i + needle.len() as int)
        == needle
}

/// `needle` occurs somewhere in `hay`.
pub open spec fn spec_contains_seq(hay: Seq<char>, needle: Seq<char>) -> bool {
    exists|i: int| occurs_at(hay, needle, i)
}

/// What `str::to_lowercase` returns; the result depends on the characters
/// alone.
pub uninterp spec fn lower_of(s: Seq<char>) -> Seq<char>;

/// Relies on `str::to_lowercase` of std: the lowercased text is a function of
/// the input characters alone.
#[verifier::external_body]
pub fn lowercase(s: &str) -> (r: String)
    ensures
        r@ == lower_of(s@),
{
    s.to_lowercase()
}

/// Case-insensitive equality, folding both sides as `str::to_lowercase` does.
pub fn eq_ignore_case(a: &str, b: &str) -> (r: bool)
    ensures
        r == (lower_of(a@) == lower_of(b@)),
{
    let la = lowercase(a);
    let lb = lowercase(b);
    la.eq(&lb)
}

/// Whether `hay` starts with `needle` at position `i`.
fn occurs_at_exec(hay: &str, hay_len: usize, needle: &str, needle_len: usize, i: usize) -> (r:
    bool)
    requires
        hay_len == hay@.len(),
        needle_len == needle@.len(),
        i + needle_len <= hay_len,
    ensures
        r == occurs_at(hay@, needle@, i as int),
{
    let mut j: usize = 0;
    while j < needle_len
        invariant
            hay_len == hay@.len(),
            needle_len == needle@.len(),
            i + needle_len <= hay_len,
            0 <= j <= needle_len,
            forall|k: int| 0 <= k < j ==> hay@[i + k] == needle@[k],
        decreases needle_len - j,
    {
        if hay.get_char(i + j) != needle.get_char(j) {
            assert(hay@.subrange(i as int, i + needle@.len() as int)[j as int]
                != needle@[j as int]);
            return false;
        }
        j += 1;
    }
    assert(hay@.subrange(i as int, i + needle@.len() as int) =~= needle@);
    true
}

/// Whether `needle` occurs anywhere in `hay`, as `str::contains` decides it.
pub fn str_contains(hay: &str, needle: &str) -> (r: bool)
    ensures
        r == spec_contains_seq(hay@, needle@),
{
    let hay_len = hay.unicode_len();
    let needle_len = needle.unicode_len();
    if needle_len > hay_len {
        assert(!spec_contains_seq(hay@, needle@));
        return false;
    }
    if needle_len == 0 {
        assert(occurs_at(hay@, needle@, 0)) by {
            assert(hay@.subrange(0, 0) =~= needle@);
        }
        return true;
    }
    let mut i: usize = 0;
    while i <= hay_len - needle_len
        invariant
            hay_len == hay@.len(),
            needle_len == needle@.len(),
            0 < needle_len <= hay_len,
            0 <= i <= hay_len - needle_len + 1,
            forall|k: int| 0 <= k < i ==> !occurs_at(hay@, needle@, k),
        decreases hay_len - needle_len + 1 - i,
    {
        if occurs_at_exec(hay, hay_len, needle, needle_len, i) {
            return true;
        }
        i += 1;
    }
    assert forall|k: int| occurs_at(hay@, needle@, k) implies false by {
        assert(0 <= k < i);
    }
    false
}

/// Whether `s` ends with `suffix`.
pub fn str_ends_with(s: &str, suffix: &str) -> (r: bool)
    ensures
        r == (s@.len() >= suffix@.len() && s@.subrange(
            s@.len() - suffix@.len(),
            s@.len() as int,
        ) == suffix@),
{
    let n = s.unicode_len();
    let m = suffix.unicode_len();
    if m > n {
        return false;
    }
    occurs_at_exec(s, n, suffix, m, n - m)
}

/// Whether `s` starts with `prefix`.
pub fn str_starts_with(s: &str, prefix: &str) -> (r: bool)
    ensures
        r == (s@.len() >= prefix@.len() && s@.subrange(0, prefix@.len() as int) == prefix@),
{
    let n = s.unicode_len();
    let m = prefix.unicode_len();
    if m > n {
        return false;
    }
    occurs_at_exec(s, n, prefix, m, 0)
}

/// The position after which only trailing separators stand in the prefix of
/// `path` ending at `end0`.
fn end_without_trailing_seps(path: &str, end0: usize) -> (end: usize)
    requires
        end0 <= path@.len(),
    ensures
        0 <= end <= end0,
        spec_strip_trailing_seps(path@.subrange(0, end0 as int)) == path@.subrange(
            0,
            end as int,
        ),
        end > 0 ==> !is_path_sep(path@[end - 1]),
{
    let mut end: usize = end0;
    while end > 0
        invariant
            end0 <= path@.len(),
            0 <= end <= end0,
            spec_strip_trailing_seps(path@.subrange(0, end0 as int))
                == spec_strip_trailing_seps(path@.subrange(0, end as int)),
        decreases end,
    {
        let c = path.get_char(end - 1);
        if !(c == '/' || c == '\\') {
            proof {
                assert(path@.subrange(0, end as int).last() == path@[end - 1]);
                assert(spec_strip_trailing_seps(path@.subrange(0, end as int))
                    == path@.subrange(0, end as int));
            }
            return end;
        }
        proof {
            assert(path@.subrange(0, end as int).last() == path@[end - 1]);
            assert(path@.subrange(0, end as int).drop_last() =~= path@.subrange(
                0,
                end - 1,
            ));
        }
        end -= 1;
    }
    proof {
        assert(path@.subrange(0, 0) =~= Seq::<char>::empty());
    }
    0
}

/// Drops trailing `.` components (and the separators before them) from the
/// separator-stripped prefix ending at `end0`, keeping the file name.
fn trim_dot_components(path: &str, end0: usize) -> (end: usize)
    requires
        end0 <= path@.len(),
        spec_strip_trailing_seps(path@.subrange(0, end0 as int)) == path@.subrange(
            0,
            end0 as int,
        ),
        end0 > 0 ==> !is_path_sep(path@[end0 - 1]),
    ensures
        0 <= end <= end0,
        spec_file_name(path@.subrange(0, end0 as int)) == spec_file_name(
            path@.subrange(0, end as int),
        ),
        spec_strip_trailing_seps(path@.subrange(0, end as int)) == path@.subrange(
            0,
            end as int,
        ),
        end > 0 ==> !is_path_sep(path@[end - 1]),
        !(end >= 2 && path@[end - 1] == '.' && is_path_sep(path@[end - 2])),
    decreases end0,
{
    if end0 >= 2 {
        let last = path.get_char(end0 - 1);
        if last == '.' {
            let prev = path.get_char(end0 - 2);
            if prev == '/' || prev == '\\' {
                proof {
                    let t = path@.subrange(0, end0 as int);
                    assert(t.last() == path@[end0 - 1]);
                    assert(t[t.len() - 2] == path@[end0 - 2]);
                    assert(t != seq!['.']) by {
                        assert(t.len() >= 2);
                    }
                    assert(spec_file_name(t) == spec_file_name(t.drop_last()));
                    assert(t.drop_last() =~= path@.subrange(0, end0 - 1));
                }
                let e1 = end_without_trailing_seps(path, end0 - 1);
                proof {
                    assert(spec_strip_trailing_seps(path@.subrange(0, e1 as int))
                        == path@.subrange(0, e1 as int)) by {
                        if e1 > 0 {
                            assert(path@.subrange(0, e1 as int).last() == path@[e1 - 1]);
                        } else {
                            assert(path@.subrange(0, 0).len() == 0);
                        }
                    }
                    lemma_file_name_same_strip(
                        path@.subrange(0, end0 - 1),
                        path@.subrange(0, e1 as int),
                    );
                }
                return trim_dot_components(path, e1);
            }
        }
    }
    end0
}

/// The index just after the last separator strictly before `end`.
fn cut_after_last_sep(path: &str, end: usize) -> (cut: usize)
    requires
        end <= path@.len(),
    ensures
        0 <= cut <= end,
        forall|j: int| cut <= j < end ==> !is_path_sep(path@[j]),
        cut > 0 ==> is_path_sep(path@[cut - 1]),
{
    let mut cut: usize = end;
    while cut > 0
        invariant
            end <= path@.len(),
            0 <= cut <= end,
            forall|j: int| cut <= j < end ==> !is_path_sep(path@[j]),
        decreases cut,
    {
        let c = path.get_char(cut - 1);
        if c == '/' || c == '\\' {
            return cut;
        }
        cut -= 1;
    }
    0
}

/// The file name of `path` under this library's rule (see `spec_file_name`).
pub fn file_name_of(path: &str) -> (r: String)
    ensures
        r@ == spec_file_name(path@),
{
    let n = path.unicode_len();
    proof {
        assert(path@.subrange(0, n as int) =~= path@);
    }
    let e0 = end_without_trailing_seps(path, n);
    proof {
        assert(spec_strip_trailing_seps(path@.subrange(0, e0 as int)) == path@.subrange(
            0,
            e0 as int,
        )) by {
            if e0 > 0 {
                assert(path@.subrange(0, e0 as int).last() == path@[e0 - 1]);
            } else {
                assert(path@.subrange(0, 0).len() == 0);
            }
        }
        lemma_file_name_same_strip(path@, path@.subrange(0, e0 as int));
    }
    let end = trim_dot_components(path, e0);
    let ghost t = path@.subrange(0, end as int);
    if end == 0 {
        proof {
            assert(t.len() == 0);
        }
        return String::new();
    }
    if end == 1 {
        let c0 = path.get_char(0);
        if c0 == '.' {
            proof {
                assert(t =~= seq!['.']);
            }
            return String::new();
        }
    }
    proof {
        assert(t != seq!['.']) by {
            if t == seq!['.'] {
                assert(t.len() == 1 && t[0] == '.');
            }
        }
        assert(t.last() == path@[end - 1]);
        if t.len() >= 2 {
            assert(t[t.len() - 2] == path@[end - 2]);
        }
    }
    let cut = cut_after_last_sep(path, end);
    proof {
        lemma_after_last_sep_suffix(t, cut as int);
        assert(t.subrange(cut as int, end as int) =~= path@.subrange(cut as int, end as int));
    }
    // A lone drive designator carries no file name of its own.
    if cut == 0 && end >= 2 {
        let c1 = path.get_char(1);
        let c0 = path.get_char(0);
        if c1 == ':' && ((c0 as u32 >= 97 && c0 as u32 <= 122) || (c0 as u32 >= 65 && c0 as u32
            <= 90)) {
            proof {
                assert(spec_after_last_sep(t) == t.subrange(0, end as int));
                assert(t.subrange(0, end as int) =~= t);
                assert(is_drive_letter(t[0]));
                assert(t.skip(2) =~= path@.subrange(2, end as int));
            }
            if end == 2 {
                return String::new();
            }
            let c2 = path.get_char(2);
            if end == 3 && c2 == '.' {
                proof {
                    assert(t.skip(2) =~= seq!['.']);
                }
                return String::new();
            }
            if end == 4 && c2 == '.' && path.get_char(3) == '.' {
                proof {
                    assert(t.skip(2) =~= seq!['.', '.']);
                }
                return String::new();
            }
            proof {
                assert(t.skip(2).len() > 0);
                assert(t.skip(2) != seq!['.']) by {
                    if t.skip(2) == seq!['.'] {
                        assert(t.skip(2).len() == 1);
                        assert(end == 3);
                        assert(t.skip(2)[0] == seq!['.'][0]);
                        assert(t[2] == '.');
                        assert(path@[2] == '.');
                        assert(false);
                    }
                }
                assert(t.skip(2) != seq!['.', '.']) by {
                    if t.skip(2) == seq!['.', '.'] {
                        assert(t.skip(2).len() == 2);
                        assert(end == 4);
                        assert(t.skip(2)[0] == seq!['.', '.'][0]);
                        assert(t.skip(2)[1] == seq!['.', '.'][1]);
                        assert(t[2] == '.' && t[3] == '.');
                        assert(path@[2] == '.' && path@[3] == '.');
                        assert(false);
                    }
                }
            }
            return path.substring_char(2, end).to_owned();
        }
    }
    proof {
        // The drive branch of the rule does not apply here.
        if cut > 0 {
            assert(spec_after_last_sep(t).len() < t.len());
        }
    }
    // A final `..` component is no file name.
    if end - cut == 2 {
        let ca = path.get_char(cut);
        let cb = path.get_char(cut + 1);
        if ca == '.' && cb == '.' {
            proof {
                assert(path@.subrange(cut as int, end as int) =~= seq!['.', '.']);
            }
            return String::new();
        }
    }
    proof {
        assert(spec_after_last_sep(t) != seq!['.', '.']) by {
            if spec_after_last_sep(t) == seq!['.', '.'] {
                assert(end - cut == 2 && path@[cut as int] == '.' && path@[cut + 1] == '.');
            }
        }
    }
    path.substring_char(cut, end).to_owned()
}

/// If no separator stands at or after `k`, and a separator (or the start)
/// stands just before `k`, then the tail after the last separator is exactly
/// the suffix from `k`.
proof fn lemma_after_last_sep_suffix(s: Seq<char>, k: int)
    requires
        0 <= k <= s.len(),
        forall|j: int| k <= j < s.len() ==> !is_path_sep(s[j]),
        k > 0 ==> is_path_sep(s[k - 1]),
    ensures
        spec_after_last_sep(s) == s.subrange(k, s.len() as int),
    decreases s.len(),
{
    if s.len() == k {
        if k > 0 {
            assert(is_path_sep(s.last()));
            assert(spec_after_last_sep(s) =~= s.subrange(k, s.len() as int));
        } else {
            assert(spec_after_last_sep(s) =~= s.subrange(0, 0));
        }
    } else {
        assert(!is_path_sep(s.last()));
        lemma_after_last_sep_suffix(s.drop_last(), k);
        assert(s.drop_last().subrange(k, s.len() - 1) =~= s.subrange(k, s.len() - 1));
        assert(spec_after_last_sep(s) == spec_after_last_sep(s.drop_last()).push(s.last()));
        assert(s.subrange(k, s.len() - 1).push(s.last()) =~= s.subrange(k, s.len() as int));
    }
}

/// Lexicographic order on character sequences, by code point.
pub open spec fn seq_char_le(a: Seq<char>, b: Seq<char>) -> bool
    decreases a.len(),
{
    if a.len() == 0 {
        true
    } else if b.len() == 0 {
        false
    } else if a[0] == b[0] {
        seq_char_le(a.drop_first(), b.drop_first())
    } else {
        (a[0] as int) < (b[0] as int)
    }
}

/// The order is total: one direction always holds.
pub proof fn lemma_seq_char_le_total(a: Seq<char>, b: Seq<char>)
    ensures
        seq_char_le(a, b) || seq_char_le(b, a),
    decreases a.len(),
{
    if a.len() > 0 && b.len() > 0 {
        if a[0] == b[0] {
            lemma_seq_char_le_total(a.drop_first(), b.drop_first());
        } else {
            assert((a[0] as int) != (b[0] as int));
        }
    }
}

/// The order is antisymmetric: both directions force equality.
pub proof fn lemma_seq_char_le_antisym(a: Seq<char>, b: Seq<char>)
    requires
        seq_char_le(a, b),
        seq_char_le(b, a),
    ensures
        a == b,
    decreases a.len(),
{
    if a.len() == 0 {
        assert(b.len() == 0);
        assert(a =~= b);
    } else {
        assert(b.len() > 0);
        assert(a[0] == b[0]) by {
            if a[0] != b[0] {
                assert((a[0] as int) < (b[0] as int));
                assert((b[0] as int) < (a[0] as int));
            }
        }
        lemma_seq_char_le_antisym(a.drop_first(), b.drop_first());
        assert(a =~= b) by {
            assert(forall|i: int|
                1 <= i < a.len() ==> a[i] == a.drop_first()[i - 1] && b[i]
                    == b.drop_first()[i - 1]);
        }
    }
}

/// The order is transitive.
pub proof fn lemma_seq_char_le_trans(a: Seq<char>, b: Seq<char>, c: Seq<char>)
    requires
        seq_char_le(a, b),
        seq_char_le(b, c),
    ensures
        seq_char_le(a, c),
    decreases a.len(),
{
    if a.len() > 0 {
        assert(b.len() > 0);
        assert(c.len() > 0);
        if a[0] == b[0] && b[0] == c[0] {
            lemma_seq_char_le_trans(a.drop_first(), b.drop_first(), c.drop_first());
        }
    }
}

/// Compares two texts in lexicographic code-point order.
pub fn str_le(a: &str, b: &str) -> (r: bool)
    ensures
        r == seq_char_le(a@, b@),
{
    let an = a.unicode_len();
    let bn = b.unicode_len();
    let mut i: usize = 0;
    proof {
        assert(a@.skip(0) =~= a@);
        assert(b@.skip(0) =~= b@);
    }
    while i < an && i < bn
        invariant
            an == a@.len(),
            bn == b@.len(),
            0 <= i <= an,
            i <= bn,
            forall|k: int| 0 <= k < i ==> a@[k] == b@[k],
            seq_char_le(a@, b@) == seq_char_le(a@.skip(i as int), b@.skip(i as int)),
        decreases an - i,
    {
        let ca = a.get_char(i);
        let cb = b.get_char(i);
        proof {
            assert(a@.skip(i as int)[0] == a@[i as int]);
            assert(b@.skip(i as int)[0] == b@[i as int]);
            assert(a@.skip(i as int).drop_first() =~= a@.skip(i + 1));
            assert(b@.skip(i as int).drop_first() =~= b@.skip(i + 1));
        }
        if ca != cb {
            return (ca as u32) < (cb as u32);
        }
        i += 1;
    }
    proof {
        if i >= an {
            assert(a@.skip(i as int).len() == 0);
        } else {
            assert(b@.skip(i as int).len() == 0);
            assert(a@.skip(i as int).len() > 0);
        }
    }
    i >= an
}

/// The character for one decimal digit.
pub open spec fn digit_char(d: nat) -> char {
    if d == 0 {
        '0'
    } else if d == 1 {
        '1'
    } else if d == 2 {
        '2'
    } else if d == 3 {
        '3'
    } else if d == 4 {
        '4'
    } else if d == 5 {
        '5'
    } else if d == 6 {
        '6'
    } else if d == 7 {
        '7'
    } else if d == 8 {
        '8'
    } else {
        '9'
    }
}

/// The decimal rendering of `n`, without a sign and without leading zeros.
pub open spec fn dec_str(n: nat) -> Seq<char>
    decreases n,
{
    if n < 10 {
        seq![digit_char(n)]
    } else {
        dec_str(n / 10).push(digit_char(n % 10))
    }
}

/// The one-character string for digit `d`.
fn digit_lit(d: u64) -> (s: &'static str)
    requires
        d < 10,
    ensures
        s@ == seq![digit_char(d as nat)],
{
    proof {
        reveal_strlit("0");
        reveal_strlit("1");
        reveal_strlit("2");
        reveal_strlit("3");
        reveal_strlit("4");
        reveal_strlit("5");
        reveal_strlit("6");
        reveal_strlit("7");
        reveal_strlit("8");
        reveal_strlit("9");
    }
    let s: &'static str = if d == 0 {
        "0"
    } else if d == 1 {
        "1"
    } else if d == 2 {
        "2"
    } else if d == 3 {
        "3"
    } else if d == 4 {
        "4"
    } else if d == 5 {
        "5"
    } else if d == 6 {
        "6"
    } else if d == 7 {
        "7"
    } else {
        "8"
    };
    if d == 9 {
        let nine: &'static str = "9";
        proof {
            assert(nine@ =~= seq![digit_char(d as nat)]);
        }
        nine
    } else {
        proof {
            assert(s@ =~= seq![digit_char(d as nat)]);
        }
        s
    }
}

/// Renders `n` in decimal.
pub fn u64_to_string(n: u64) -> (s: String)
    ensures
        s@ == dec_str(n as nat),
    decreases n,
{
    if n < 10 {
        String::from_str(digit_lit(n))
    } else {
        let mut s = u64_to_string(n / 10);
        s.append(digit_lit(n % 10));
        proof {
            assert(dec_str((n / 10) as nat).push(digit_char((n % 10) as nat)) =~= dec_str(
                (n / 10) as nat,
            ) + seq![digit_char((n % 10) as nat)]);
        }
        s
    }
}

} // verus!
