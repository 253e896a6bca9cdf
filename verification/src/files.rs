//! Directory-listing logic: which cached directories belong to which
//! browsing mode, and the best-effort staleness check that compares
//! expected output names against an on-disk listing. The filesystem walks
//! themselves stay with the caller; everything here works on listings
//! passed in as plain values.

use vstd::prelude::*;
use crate::digits::all_digits;
use crate::names::str_is_digit;
use crate::text::{contains_seq, contains_sub, replace_all, spec_replace, str_eq};

verus! {

/// Keeps every entry that is not the `history` file.
pub fn filter_history(entries: Vec<String>) -> (r: Vec<String>)
    ensures
        r@ == entries@.filter(|e: String| e@ != "history"@),
{
    let ghost pred = |e: String| e@ != "history"@;
    let mut r: Vec<String> = Vec::new();
    let mut i: usize = 0;
    proof {
        reveal(Seq::filter);
        assert(entries@.take(0) =~= Seq::<String>::empty());
    }
    while i < entries.len()
        invariant
            0 <= i <= entries@.len(),
            pred == (|e: String| e@ != "history"@),
            r@ == entries@.take(i as int).filter(pred),
        decreases entries@.len() - i,
    {
        let keep = !str_eq(entries[i].as_str(), "history");
        proof {
            reveal(Seq::filter);
            assert(entries@.take(i as int + 1).drop_last() =~= entries@.take(i as int));
            assert(entries@.take(i as int + 1).last() == entries@[i as int]);
        }
        if keep {
            r.push(entries[i].clone());
        }
        i = i + 1;
    }
    proof {
        assert(entries@.take(entries@.len() as int) =~= entries@);
    }
    r
}

/// The staleness verdict over one expected name and the directory entry
/// paired with it: the entry disproves freshness when it contains the
/// name with its slashes removed.
pub open spec fn entry_matches_name(entry: Seq<char>, name: Seq<char>) -> bool {
    contains_seq(entry, spec_replace(name, "/"@, ""@))
}

/// The best-effort staleness check of a download directory: false when
/// the directory holds fewer entries than names are expected, otherwise
/// true exactly when no paired entry contains its expected name (with
/// slashes removed) — the sense the browsing loop reads it in.
pub fn dir_up_to_date(names: &Vec<String>, dir: &Vec<String>) -> (r: bool)
    ensures
        dir@.len() < names@.len() ==> r == false,
        dir@.len() >= names@.len() ==> r == (forall|i: int|
            0 <= i < names@.len() ==> !entry_matches_name(#[trigger] dir@[i]@, names@[i]@)),
{
    if dir.len() < names.len() {
        return false;
    }
    let mut i: usize = 0;
    while i < names.len()
        invariant
            0 <= i <= names@.len(),
            names@.len() <= dir@.len(),
            forall|k: int|
                0 <= k < i ==> !entry_matches_name(#[trigger] dir@[k]@, names@[k]@),
        decreases names@.len() - i,
    {
        proof {
            reveal_strlit("/");
        }
        let cleaned = replace_all(names[i].as_str(), "/", "");
        if contains_sub(dir[i].as_str(), cleaned.as_str()) {
            return false;
        }
        i = i + 1;
    }
    true
}

/// The staleness check over a sorted directory listing: an empty listing
/// is never up to date, a leading `.koneko` marker file is skipped, and
/// the rest is compared name by name.
pub fn dir_not_empty(names: &Vec<String>, dir: &Vec<String>) -> (r: bool)
    ensures
        dir@.len() == 0 ==> r == false,
        dir@.len() > 0 && dir@[0]@ == ".koneko"@ ==> r == spec_dir_verdict(
            names@,
            dir@.drop_first(),
        ),
        dir@.len() > 0 && dir@[0]@ != ".koneko"@ ==> r == spec_dir_verdict(names@, dir@),
{
    if dir.len() == 0 {
        return false;
    }
    if str_eq(dir[0].as_str(), ".koneko") {
        let mut rest: Vec<String> = Vec::new();
        let mut i: usize = 1;
        while i < dir.len()
            invariant
                1 <= i <= dir@.len(),
                rest@.len() == i - 1,
                forall|k: int| 0 <= k < i - 1 ==> rest@[k] == dir@[k + 1],
            decreases dir@.len() - i,
        {
            rest.push(dir[i].clone());
            i = i + 1;
        }
        proof {
            assert(rest@ =~= dir@.drop_first());
        }
        dir_up_to_date(names, &rest)
    } else {
        dir_up_to_date(names, dir)
    }
}

/// What `dir_up_to_date` decides for a listing.
pub open spec fn spec_dir_verdict(names: Seq<String>, dir: Seq<String>) -> bool {
    if dir.len() < names.len() {
        false
    } else {
        forall|i: int| 0 <= i < names.len() ==> !entry_matches_name(#[trigger] dir[i]@, names[i]@)
    }
}

/// Whether the mode list enables the given mode.
fn has_mode(modes: &Vec<i32>, m: i32) -> (r: bool)
    ensures
        r == modes@.contains(m),
{
    let mut i: usize = 0;
    while i < modes.len()
        invariant
            0 <= i <= modes@.len(),
            forall|k: int| 0 <= k < i ==> modes@[k] != m,
        decreases modes@.len() - i,
    {
        if modes[i] == m {
            return true;
        }
        i = i + 1;
    }
    false
}

/// Whether the listing contains the entry.
fn contains_entry(entries: &Vec<String>, s: &str) -> (r: bool)
    ensures
        r == (exists|k: int| 0 <= k < entries@.len() && #[trigger] entries@[k]@ == s@),
{
    let mut i: usize = 0;
    while i < entries.len()
        invariant
            0 <= i <= entries@.len(),
            forall|k: int| 0 <= k < i ==> entries@[k]@ != s@,
        decreases entries@.len() - i,
    {
        if str_eq(entries[i].as_str(), s) {
            return true;
        }
        i = i + 1;
    }
    false
}

/// The names any enabled mode whitelists.
pub open spec fn spec_allowed_name(modes: Seq<i32>, d: Seq<char>) -> bool {
    ||| (modes.contains(1) && d == "testgallery"@)
    ||| (modes.contains(3) && (d == "following"@ || d == "testuser"@))
    ||| (modes.contains(4) && d == "search"@)
    ||| (modes.contains(5) && d == "illustfollow"@)
}

/// Whether one directory name belongs to the cache view of the enabled
/// modes: gallery mode also keeps plain numeric directories, single-post
/// mode also keeps the known single-post directories, and every mode
/// keeps its own marker names.
pub open spec fn spec_keep_dir(
    modes: Seq<i32>,
    mode2_dirs: Seq<String>,
    d: Seq<char>,
) -> bool {
    if modes.contains(1) {
        all_digits(d) || spec_allowed_name(modes, d)
    } else if modes.contains(2) {
        (exists|k: int| 0 <= k < mode2_dirs.len() && #[trigger] mode2_dirs[k]@ == d)
            || spec_allowed_name(modes, d)
    } else {
        spec_allowed_name(modes, d)
    }
}

/// Checks one directory name against the enabled modes.
fn keep_dir(modes: &Vec<i32>, mode2_dirs: &Vec<String>, d: &str) -> (r: bool)
    ensures
        r == spec_keep_dir(modes@, mode2_dirs@, d@),
{
    let allowed = (has_mode(modes, 1) && str_eq(d, "testgallery")) || (has_mode(modes, 3) && (
    str_eq(d, "following") || str_eq(d, "testuser"))) || (has_mode(modes, 4) && str_eq(
        d,
        "search",
    )) || (has_mode(modes, 5) && str_eq(d, "illustfollow"));
    if has_mode(modes, 1) {
        str_is_digit(d) || allowed
    } else if has_mode(modes, 2) {
        contains_entry(mode2_dirs, d) || allowed
    } else {
        allowed
    }
}

/// Keeps the directory names that belong to the cache view of the
/// enabled modes.
pub fn filter_dir(modes: &Vec<i32>, entries: Vec<String>, mode2_dirs: &Vec<String>) -> (r: Vec<
    String,
>)
    ensures
        r@ == entries@.filter(
            |e: String| spec_keep_dir(modes@, mode2_dirs@, e@),
        ),
{
    let ghost pred = |e: String| spec_keep_dir(modes@, mode2_dirs@, e@);
    let mut r: Vec<String> = Vec::new();
    let mut i: usize = 0;
    proof {
        reveal(Seq::filter);
        assert(entries@.take(0) =~= Seq::<String>::empty());
    }
    while i < entries.len()
        invariant
            0 <= i <= entries@.len(),
            pred == (|e: String| spec_keep_dir(modes@, mode2_dirs@, e@)),
            r@ == entries@.take(i as int).filter(pred),
        decreases entries@.len() - i,
    {
        let keep = keep_dir(modes, mode2_dirs, entries[i].as_str());
        proof {
            reveal(Seq::filter);
            assert(entries@.take(i as int + 1).drop_last() =~= entries@.take(i as int));
            assert(entries@.take(i as int + 1).last() == entries@[i as int]);
        }
        if keep {
            r.push(entries[i].clone());
        }
        i = i + 1;
    }
    proof {
        assert(entries@.take(entries@.len() as int) =~= entries@);
    }
    r
}

} // verus!
