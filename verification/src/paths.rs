//! The extension checks that keep the file commands from reading or
//! writing anything but the file types they exist for.
use vstd::prelude::*;

use crate::text::{concat, eq_ignore_ascii_case, eq_ignore_ascii_case_spec};

verus! {

/// The extension `Path::extension` finds in a path (the part of the file
/// name after its last dot, for a name that is not only a leading dot),
/// `None` when there is none. Which characters separate path components
/// is the build target's (`\` too on Windows), so the answer is fixed per
/// target, not across targets.
pub uninterp spec fn path_extension(path: Seq<char>) -> Option<Seq<char>>;

/// `Path::new(path).extension()`, as UTF-8 (a `&str` path's extension
/// always is).
#[verifier::external_body]
fn extension_of(path: &str) -> (r: Option<String>)
    ensures
        match r {
            Some(e) => path_extension(path@) == Some(e@),
            None => path_extension(path@) is None,
        },
{
    match std::path::Path::new(path).extension() {
        Some(e) => match e.to_str() {
            Some(s) => Some(s.to_string()),
            None => None,
        },
        None => None,
    }
}

/// Whether `path`'s extension is `ext`, ASCII case ignored.
pub open spec fn has_extension(path: Seq<char>, ext: Seq<char>) -> bool {
    match path_extension(path) {
        Some(e) => eq_ignore_ascii_case_spec(e, ext),
        None => false,
    }
}

/// Refuses a path without the `.ext` extension with "only .ext files are
/// supported".
pub fn require_extension(path: &str, ext: &str) -> (r: Result<(), String>)
    ensures
        r is Ok <==> has_extension(path@, ext@),
        r matches Err(e) ==> e@ == "only ."@ + ext@ + " files are supported"@,
{
    let ok = match extension_of(path) {
        Some(e) => eq_ignore_ascii_case(e.as_str(), ext),
        None => false,
    };
    if ok {
        Ok(())
    } else {
        let a = concat("only .", ext);
        Err(concat(a.as_str(), " files are supported"))
    }
}

/// The data export/import commands accept `.json` files only.
pub fn require_json_extension(path: &str) -> (r: Result<(), String>)
    ensures
        r is Ok <==> has_extension(path@, "json"@),
        r matches Err(e) ==> e@ == "only .json files are supported"@,
{
    let ok = match extension_of(path) {
        Some(e) => eq_ignore_ascii_case(e.as_str(), "json"),
        None => false,
    };
    if ok {
        Ok(())
    } else {
        Err(String::from_str("only .json files are supported"))
    }
}

/// How many of the newest log files go into an archive: at least one, at
/// most what exists.
pub fn archive_take_count(count: u32, available: usize) -> (r: usize)
    ensures
        r == (if (if count < 1 { 1 } else { count as int }) < available {
            if count < 1 { 1 } else { count as int }
        } else {
            available as int
        }),
{
    let c: u32 = if count < 1 { 1 } else { count };
    if (c as u64) < (available as u64) {
        c as usize
    } else {
        available
    }
}


// ---------------------------------------------------------------------------
// Log files, newest first
// ---------------------------------------------------------------------------

/// One entry of the log directory: its path and when it was last modified,
/// in nanoseconds from the Unix epoch (negative before it).
#[derive(Clone, Debug)]
pub struct LogFileEntry {
    pub path: String,
    pub modified_ns: i128,
}

/// Only files whose extension is exactly `log` are log files.
pub open spec fn is_log_file(e: LogFileEntry) -> bool {
    path_extension(e.path@) == Some("log"@)
}

/// Entry `a` is listed before entry `b`: it was modified later, or at the
/// same time and came first in the directory listing (the sort is stable).
pub open spec fn listed_before(entries: Seq<LogFileEntry>, a: int, b: int) -> bool {
    ||| entries[a].modified_ns > entries[b].modified_ns
    ||| (entries[a].modified_ns == entries[b].modified_ns && a < b)
}

/// `order` lists every log file of `entries` once, by index, newest first.
pub open spec fn is_newest_first(entries: Seq<LogFileEntry>, order: Seq<usize>) -> bool {
    &&& forall|k: int|
        0 <= k < order.len() ==> (#[trigger] order[k]) < entries.len() && is_log_file(
            entries[order[k] as int],
        )
    &&& forall|i: int|
        0 <= i < entries.len() && is_log_file(#[trigger] entries[i]) ==> order.contains(i as usize)
    &&& forall|a: int, b: int|
        0 <= a < b < order.len() ==> listed_before(
            entries,
            (#[trigger] order[a]) as int,
            (#[trigger] order[b]) as int,
        )
}

fn is_log_path(path: &str) -> (r: bool)
    ensures
        r == (path_extension(path@) == Some("log"@)),
{
    match extension_of(path) {
        Some(e) => {
            let r = e == String::from_str("log");
            proof {
                reveal_strlit("log");
            }
            r
        },
        None => false,
    }
}

/// The order the log files are listed in: every `.log` entry, newest first
/// by modification time, entries modified at the same instant in the order
/// the directory listed them.
fn newest_first_order(entries: &Vec<LogFileEntry>) -> (order: Vec<usize>)
    ensures
        is_newest_first(entries@, order@),
{
    let mut order: Vec<usize> = Vec::new();
    let mut i: usize = 0;
    while i < entries.len()
        invariant
            0 <= i <= entries.len(),
            forall|k: int|
                0 <= k < order.len() ==> (#[trigger] order@[k]) < i && is_log_file(
                    entries@[order@[k] as int],
                ),
            forall|j: int|
                0 <= j < i && is_log_file(#[trigger] entries@[j]) ==> order@.contains(j as usize),
            forall|a: int, b: int|
                0 <= a < b < order.len() ==> listed_before(
                    entries@,
                    (#[trigger] order@[a]) as int,
                    (#[trigger] order@[b]) as int,
                ),
        decreases entries.len() - i,
    {
        if is_log_path(entries[i].path.as_str()) {
            let key = entries[i].modified_ns;
            let mut p: usize = 0;
            while p < order.len() && entries[order[p]].modified_ns >= key
                invariant
                    0 <= p <= order.len(),
                    i < entries.len(),
                    key == entries@[i as int].modified_ns,
                    forall|k: int| 0 <= k < order.len() ==> (#[trigger] order@[k]) < i,
                    forall|k: int| 0 <= k < p ==> entries@[(#[trigger] order@[k]) as int].modified_ns >= key,
                decreases order.len() - p,
            {
                p = p + 1;
            }
            let ghost before = order@;
            proof {
                assert forall|k: int| p <= k < before.len() implies entries@[(#[trigger] before[k]) as int].modified_ns < key by {
                    if k > p as int {
                        assert(listed_before(entries@, before[p as int] as int, before[k] as int));
                    }
                }
            }
            order.insert(p, i);
            proof {
                assert forall|j: int| 0 <= j < i + 1 && is_log_file(#[trigger] entries@[j]) implies order@.contains(j as usize) by {
                    if j < i {
                        let w = choose|w: int| 0 <= w < before.len() && before[w] == j as usize;
                        if w < p {
                            assert(order@[w] == j as usize);
                        } else {
                            assert(order@[w + 1] == j as usize);
                        }
                    } else {
                        assert(order@[p as int] == i);
                    }
                }
                assert forall|a: int, b: int| 0 <= a < b < order.len() implies listed_before(
                    entries@,
                    (#[trigger] order@[a]) as int,
                    (#[trigger] order@[b]) as int,
                ) by {
                    if a < p && b < p {
                        assert(order@[a] == before[a] && order@[b] == before[b]);
                    } else if a < p && b == p {
                        assert(order@[a] == before[a]);
                    } else if a < p {
                        assert(order@[a] == before[a] && order@[b] == before[b - 1]);
                    } else if a == p {
                        assert(order@[b] == before[b - 1]);
                    } else {
                        assert(order@[a] == before[a - 1] && order@[b] == before[b - 1]);
                    }
                }
            }
        }
        i = i + 1;
    }
    order
}

/// The log files of a directory listing, newest first (what the log export
/// copies or archives from the front of).
pub fn log_files_newest_first(entries: &Vec<LogFileEntry>) -> (r: Vec<String>)
    ensures
        exists|order: Seq<usize>|
            #![trigger is_newest_first(entries@, order)]
            is_newest_first(entries@, order) && r@.len() == order.len() && forall|k: int|
                0 <= k < order.len() ==> (#[trigger] r@[k])@ == entries@[order[k] as int].path@,
{
    let order = newest_first_order(entries);
    let mut out: Vec<String> = Vec::new();
    let mut k: usize = 0;
    while k < order.len()
        invariant
            0 <= k <= order.len(),
            is_newest_first(entries@, order@),
            out.len() == k,
            forall|q: int| 0 <= q < k ==> (#[trigger] out@[q])@ == entries@[order@[q] as int].path@,
        decreases order.len() - k,
    {
        out.push(entries[order[k]].path.clone());
        k = k + 1;
    }
    out
}

} // verus!
