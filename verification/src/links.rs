//! Field mapping for desktop links: the command line a link embeds, its
//! description, the link file extension, and the decoding of the fields read
//! back from a link.

use vstd::prelude::*;

use crate::data::{spec_cli_id, spec_execute_flag, ShortcutResolveResponse};
use crate::text::str_ends_with;

verus! {

/// The argument text a desktop link embeds so that activating it executes
/// the stored shortcut headlessly.
pub fn shortcut_launch_args(shortcut_id: &str) -> (r: String)
    ensures
        r@ == spec_execute_flag() + " "@ + shortcut_id@,
{
    let mut s = String::from_str("--execute-shortcut");
    s.append(" ");
    s.append(shortcut_id);
    s
}

/// A command line of exactly the execute flag followed by one id parses back
/// to that id: the link's embedded arguments round-trip through the parser.
pub proof fn lemma_launch_args_round_trip(args: Seq<String>)
    requires
        args.len() == 2,
        args[0]@ == spec_execute_flag(),
    ensures
        spec_cli_id(args) == args[1]@,
{
    assert(args.skip(2).len() == 0);
    assert(crate::data::spec_cli_fold(args.skip(2), args[1]@) == args[1]@);
    assert(spec_cli_id(args) == crate::data::spec_cli_fold(args.skip(2), args[1]@));
}

/// The description text embedded in a desktop link.
pub fn shortcut_description(name: &str) -> (r: String)
    ensures
        r@ == "Advanced Shortcut - "@ + name@,
{
    let mut s = String::from_str("Advanced Shortcut - ");
    s.append(name);
    s
}

/// Whether `s` ends in the link extension.
pub open spec fn spec_has_lnk_ext(s: Seq<char>) -> bool {
    s.len() >= 4 && s.subrange(s.len() - 4, s.len() as int) == ".lnk"@
}

/// The target path with the link extension appended unless already present.
pub fn ensure_lnk_extension(target_path: &str) -> (r: String)
    ensures
        spec_has_lnk_ext(target_path@) ==> r@ == target_path@,
        !spec_has_lnk_ext(target_path@) ==> r@ == target_path@ + ".lnk"@,
{
    proof {
        reveal_strlit(".lnk");
    }
    if str_ends_with(target_path, ".lnk") {
        target_path.to_owned()
    } else {
        let mut s = target_path.to_owned();
        s.append(".lnk");
        s
    }
}

/// The prefix of a wide-character buffer before its first NUL, or the whole
/// buffer when none occurs.
pub fn utf16_prefix_until_nul(buf: &Vec<u16>) -> (r: Vec<u16>)
    ensures
        ({
            let cut = if exists|j: int| 0 <= j < buf@.len() && buf@[j] == 0 {
                choose|j: int|
                    0 <= j < buf@.len() && buf@[j] == 0 && forall|k: int|
                        0 <= k < j ==> buf@[k] != 0
            } else {
                buf@.len() as int
            };
            r@ == buf@.subrange(0, cut)
        }),
{
    let mut i: usize = 0;
    let mut r: Vec<u16> = Vec::new();
    while i < buf.len()
        invariant
            0 <= i <= buf@.len(),
            r@ == buf@.subrange(0, i as int),
            forall|k: int| 0 <= k < i ==> buf@[k] != 0,
        decreases buf@.len() - i,
    {
        if buf[i] == 0 {
            proof {
                let j0 = i as int;
                assert(0 <= j0 < buf@.len() && buf@[j0] == 0 && forall|k: int|
                    0 <= k < j0 ==> buf@[k] != 0);
                let jc = choose|j: int|
                    0 <= j < buf@.len() && buf@[j] == 0 && forall|k: int|
                        0 <= k < j ==> buf@[k] != 0;
                if jc < j0 {
                    assert(buf@[jc] != 0);
                }
                if j0 < jc {
                    assert(buf@[j0] != 0);
                }
                assert(jc == j0);
            }
            return r;
        }
        proof {
            assert(buf@.subrange(0, i + 1) =~= buf@.subrange(0, i as int).push(
                buf@[i as int],
            ));
        }
        r.push(buf[i]);
        i += 1;
    }
    proof {
        if exists|j: int| 0 <= j < buf@.len() && buf@[j] == 0 {
            let j0 = choose|j: int| 0 <= j < buf@.len() && buf@[j] == 0;
            assert(buf@[j0] != 0);
        }
    }
    r
}

/// Packs the fields read back from a link, failing exactly when no target
/// was stored.
pub fn finish_resolved_link(target: String, args: String) -> (r: Result<
    ShortcutResolveResponse,
    String,
>)
    ensures
        target@.len() == 0 <==> r is Err,
        r matches Ok(resp) ==> resp.path@ == target@ && resp.args@ == args@,
        r matches Err(m) ==> m@ == "Could not resolve shortcut target"@,
{
    if target.as_str().unicode_len() == 0 {
        Err(String::from_str("Could not resolve shortcut target"))
    } else {
        Ok(ShortcutResolveResponse { path: target, args })
    }
}

} // verus!
