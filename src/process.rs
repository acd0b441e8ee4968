//! Running processes of the target application and their matching to
//! profile directories.
use vstd::prelude::*;
use crate::paths::{chars_dir_match, dir_matches, string_views};
use crate::text::{
    chars_contain, chars_end_with, chars_of, contains, ends_with, lower_of,
    normalize_path_for_match, normalized, to_lower,
};

verus! {

/// One process from a snapshot of the operating system.
pub struct ProcessRecord {
    pub pid: u32,
    pub name: String,
    /// Full path of the executable; empty when it could not be read.
    pub path: String,
}

/// Whether a process belongs to the target application, by its name or the
/// path of its executable.
pub open spec fn is_target(name: Seq<char>, path: Seq<char>) -> bool {
    ||| contains(lower_of(name), "telegram"@)
    ||| ends_with(lower_of(path), "\\telegram.exe"@)
    ||| ends_with(lower_of(path), "/telegram"@)
    ||| contains(lower_of(path), "\\telegram desktop\\"@)
}

/// The processes of `ps` that belong to the target application, in order.
pub open spec fn target_processes(ps: Seq<ProcessRecord>) -> Seq<ProcessRecord>
    decreases ps.len(),
{
    if ps.len() == 0 {
        Seq::empty()
    } else {
        let rest = target_processes(ps.drop_last());
        if is_target(ps.last().name@, ps.last().path@) {
            rest.push(ps.last())
        } else {
            rest
        }
    }
}

pub fn is_target_process(name: &str, path: &str) -> (r: bool)
    ensures
        r == is_target(name@, path@),
{
    let name_lower = chars_of(to_lower(name).as_str());
    let path_lower = chars_of(to_lower(path).as_str());
    chars_contain(&name_lower, &chars_of("telegram"))
        || chars_end_with(&path_lower, &chars_of("\\telegram.exe"))
        || chars_end_with(&path_lower, &chars_of("/telegram"))
        || chars_contain(&path_lower, &chars_of("\\telegram desktop\\"))
}

/// Keeps the processes of the target application, in snapshot order.
pub fn filter_target_processes(all: Vec<ProcessRecord>) -> (r: Vec<ProcessRecord>)
    ensures
        r@ == target_processes(all@),
{
    let ghost orig = all@;
    let n = all.len();
    let mut rest = all;
    let mut r: Vec<ProcessRecord> = Vec::new();
    let mut k: usize = 0;
    while rest.len() > 0
        invariant
            n == orig.len(),
            k + rest@.len() == orig.len(),
            rest@ == orig.subrange(k as int, orig.len() as int),
            r@ == target_processes(orig.subrange(0, k as int)),
        decreases rest@.len(),
    {
        let p = rest.remove(0);
        proof {
            assert(p == orig[k as int]);
            assert(orig.subrange(0, k + 1 as int).drop_last() =~= orig.subrange(0, k as int));
        }
        if is_target_process(p.name.as_str(), p.path.as_str()) {
            r.push(p);
        }
        k = k + 1;
        assert(rest@ =~= orig.subrange(k as int, orig.len() as int));
    }
    assert(orig.subrange(0, k as int) =~= orig);
    r
}

/// Some earlier process of the snapshot has the same pid.
pub open spec fn pid_seen_before(ps: Seq<ProcessRecord>, i: int) -> bool {
    exists|j: int| 0 <= j < i && ps[j].pid == ps[i].pid
}

/// The path lies in one of the directories.
pub open spec fn in_some_dir(path: Seq<char>, dirs: Seq<Seq<char>>) -> bool {
    exists|d: int| 0 <= d < dirs.len() && dir_matches(path, #[trigger] dirs[d])
}

/// The pids, first occurrence only, of the processes whose normalized path
/// lies in one of `dirs`.
pub open spec fn pids_in_dirs(ps: Seq<ProcessRecord>, dirs: Seq<Seq<char>>) -> Seq<u32>
    decreases ps.len(),
{
    if ps.len() == 0 {
        Seq::empty()
    } else {
        let rest = pids_in_dirs(ps.drop_last(), dirs);
        let i = ps.len() - 1;
        if !pid_seen_before(ps, i) && in_some_dir(normalized(ps[i].path@), dirs) {
            rest.push(ps[i].pid)
        } else {
            rest
        }
    }
}

/// The characters of each string.
pub fn chars_of_all(v: &[String]) -> (r: Vec<Vec<char>>)
    ensures
        r@.len() == v@.len(),
        forall|k: int| 0 <= k < v@.len() ==> (#[trigger] r@[k])@ == v@[k]@,
{
    let mut r: Vec<Vec<char>> = Vec::new();
    let mut i: usize = 0;
    while i < v.len()
        invariant
            i <= v@.len(),
            r@.len() == i,
            forall|k: int| 0 <= k < i ==> (#[trigger] r@[k])@ == v@[k]@,
        decreases v@.len() - i,
    {
        r.push(chars_of(v[i].as_str()));
        i = i + 1;
    }
    r
}

fn chars_in_some_dir(path: &Vec<char>, dirs: &Vec<Vec<char>>, dir_views: Ghost<Seq<Seq<char>>>) -> (r: bool)
    requires
        dirs@.len() == dir_views@.len(),
        forall|k: int| 0 <= k < dirs@.len() ==> (#[trigger] dirs@[k])@ == dir_views@[k],
    ensures
        r == in_some_dir(path@, dir_views@),
{
    let mut d: usize = 0;
    while d < dirs.len()
        invariant
            d <= dirs@.len(),
            dirs@.len() == dir_views@.len(),
            forall|k: int| 0 <= k < dirs@.len() ==> (#[trigger] dirs@[k])@ == dir_views@[k],
            forall|k: int| 0 <= k < d ==> !dir_matches(path@, #[trigger] dir_views@[k]),
        decreases dirs@.len() - d,
    {
        if chars_dir_match(path, &dirs[d]) {
            return true;
        }
        d = d + 1;
    }
    false
}

fn pid_seen_exec(processes: &[ProcessRecord], i: usize) -> (r: bool)
    requires
        i < processes@.len(),
    ensures
        r == pid_seen_before(processes@, i as int),
{
    let mut j: usize = 0;
    while j < i
        invariant
            j <= i < processes@.len(),
            forall|t: int| 0 <= t < j ==> processes@[t].pid != processes@[i as int].pid,
        decreases i - j,
    {
        if processes[j].pid == processes[i].pid {
            return true;
        }
        j = j + 1;
    }
    false
}

/// The pids of the processes that run from one of the profile directories
/// `account_dirs` (normalized paths), each pid once, in snapshot order.
pub fn get_pids_for_account_dirs(processes: &[ProcessRecord], account_dirs: &[String]) -> (r: Vec<u32>)
    ensures
        r@ == pids_in_dirs(processes@, string_views(account_dirs@)),
{
    let ghost dirs = string_views(account_dirs@);
    let dir_chars = chars_of_all(account_dirs);
    let mut r: Vec<u32> = Vec::new();
    let mut i: usize = 0;
    while i < processes.len()
        invariant
            i <= processes@.len(),
            dirs == string_views(account_dirs@),
            dir_chars@.len() == dirs.len(),
            forall|k: int| 0 <= k < dir_chars@.len() ==> (#[trigger] dir_chars@[k])@ == dirs[k],
            r@ == pids_in_dirs(processes@.subrange(0, i as int), dirs),
        decreases processes@.len() - i,
    {
        let ghost pre = processes@.subrange(0, i + 1 as int);
        proof {
            assert(pre.drop_last() =~= processes@.subrange(0, i as int));
            assert(pre[i as int] == processes@[i as int]);
            assert(pid_seen_before(pre, i as int) == pid_seen_before(processes@, i as int)) by {
                if pid_seen_before(processes@, i as int) {
                    let j = choose|j: int| 0 <= j < i && processes@[j].pid == processes@[i as int].pid;
                    assert(pre[j] == processes@[j]);
                }
            }
        }
        if !pid_seen_exec(processes, i) {
            let path_norm = chars_of(normalize_path_for_match(processes[i].path.as_str()).as_str());
            if chars_in_some_dir(&path_norm, &dir_chars, Ghost(dirs)) {
                r.push(processes[i].pid);
            }
        }
        i = i + 1;
    }
    assert(processes@.subrange(0, i as int) =~= processes@);
    r
}

} // verus!
