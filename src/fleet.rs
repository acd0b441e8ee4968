//! Fleet reconciliation: which profiles run, which look disabled, which are
//! unknown.
use vstd::prelude::*;
use crate::health::{is_likely_logged_out, likely_logged_out, listing_view};
use crate::paths::{chars_dir_match, dir_matches};
use crate::text::{
    chars_contain, chars_of, contains, lower_of, lower_slashed, slashes_forward,
    to_lower, trim_of, trimmed,
};

verus! {

/// A profile directory found under the root.
pub struct ProfileEntry {
    /// The directory's own name.
    pub name: String,
    /// The directory's full path.
    pub path: String,
    /// The names listed by its marker directory, or `None` when that could
    /// not be listed.
    pub marker_entries: Option<Vec<String>>,
}

/// Counts over the profiles of a root.
pub struct FleetSummary {
    pub total: usize,
    pub running: usize,
    pub blocked: usize,
    pub unknown: usize,
}

/// Whether a profile owns a process path (all three lowercase with forward
/// slashes): the path lies in the profile directory, or passes through a
/// directory named like the profile.
pub open spec fn path_owned(dir_l: Seq<char>, name_l: Seq<char>, p: Seq<char>) -> bool {
    ||| dir_l.len() > 0 && dir_matches(p, dir_l)
    ||| name_l.len() > 0 && contains(p, seq!['/'] + name_l + seq!['/'])
}

pub open spec fn profile_owns(e: ProfileEntry, p: Seq<char>) -> bool {
    path_owned(lower_slashed(e.path@), lower_of(e.name@), p)
}

/// The first process index from `j` on that is not yet used and that the
/// profile owns.
pub open spec fn first_free(e: ProfileEntry, paths: Seq<Seq<char>>, used: Set<int>, j: int) -> Option<int>
    decreases paths.len() - j,
{
    if j < 0 || j >= paths.len() {
        None
    } else if !used.contains(j) && profile_owns(e, paths[j]) {
        Some(j)
    } else {
        first_free(e, paths, used, j + 1)
    }
}

/// Greedy matching of the profiles, in order, to unused processes: the set of
/// process indexes taken, the number of running profiles, and the number of
/// unmatched profiles whose marker directory looks disabled.
pub open spec fn tally(ps: Seq<ProfileEntry>, paths: Seq<Seq<char>>) -> (Set<int>, nat, nat)
    decreases ps.len(),
{
    if ps.len() == 0 {
        (Set::empty(), 0, 0)
    } else {
        let prev = tally(ps.drop_last(), paths);
        match first_free(ps.last(), paths, prev.0, 0) {
            Some(j) => (prev.0.insert(j), prev.1 + 1, prev.2),
            None => if likely_logged_out(listing_view(ps.last().marker_entries)) {
                (prev.0, prev.1, prev.2 + 1)
            } else {
                prev
            },
        }
    }
}

pub open spec fn lower_slashed_all(v: Seq<String>) -> Seq<Seq<char>> {
    v.map_values(|s: String| lower_slashed(s@))
}

/// Total, running, blocked and unknown for the profiles `ps` and the
/// executable paths of the target processes.
pub open spec fn fleet_counts(ps: Seq<ProfileEntry>, process_paths: Seq<String>) -> (nat, nat, nat, nat) {
    let t = tally(ps, lower_slashed_all(process_paths));
    (ps.len(), t.1, t.2, (ps.len() - t.1 - t.2) as nat)
}

proof fn lemma_tally_bounded(ps: Seq<ProfileEntry>, paths: Seq<Seq<char>>)
    ensures
        tally(ps, paths).1 + tally(ps, paths).2 <= ps.len(),
    decreases ps.len(),
{
    if ps.len() > 0 {
        lemma_tally_bounded(ps.drop_last(), paths);
    }
}

proof fn lemma_first_free_skip(e: ProfileEntry, paths: Seq<Seq<char>>, used: Set<int>, a: int, j: int)
    requires
        0 <= a <= j,
        forall|t: int| a <= t < j && t < paths.len() ==> used.contains(t) || !profile_owns(e, paths[t]),
    ensures
        first_free(e, paths, used, a) == first_free(e, paths, used, j),
    decreases j - a,
{
    if a < j {
        lemma_first_free_skip(e, paths, used, a + 1, j);
    }
}

proof fn lemma_first_free_found(e: ProfileEntry, paths: Seq<Seq<char>>, used: Set<int>, j: int)
    requires
        0 <= j < paths.len(),
        !used.contains(j),
        profile_owns(e, paths[j]),
    ensures
        first_free(e, paths, used, j) == Some(j),
{
}

proof fn lemma_first_free_none(e: ProfileEntry, paths: Seq<Seq<char>>, used: Set<int>, j: int)
    requires
        0 <= j,
        forall|t: int| j <= t < paths.len() ==> used.contains(t) || !profile_owns(e, paths[t]),
    ensures
        first_free(e, paths, used, j) is None,
    decreases paths.len() - j,
{
    if j < paths.len() {
        lemma_first_free_none(e, paths, used, j + 1);
    }
}

/// Lowercases a path and turns its backslashes into forward slashes.
fn lower_slashed_chars(s: &str) -> (r: Vec<char>)
    ensures
        r@ == lower_slashed(s@),
{
    slashes_forward(&chars_of(to_lower(s).as_str()))
}

fn owns_exec(dir_l: &Vec<char>, name_l: &Vec<char>, segment: &Vec<char>, p: &Vec<char>) -> (r: bool)
    requires
        segment@ == seq!['/'] + name_l@ + seq!['/'],
    ensures
        r == path_owned(dir_l@, name_l@, p@),
{
    (dir_l.len() > 0 && chars_dir_match(p, dir_l)) || (name_l.len() > 0 && chars_contain(p, segment))
}

/// Counts the running, blocked and unknown profiles: each profile in turn
/// takes the first process not yet taken whose path it owns; a profile left
/// without a process counts as blocked when its marker directory looks
/// disabled, and the rest are unknown.
pub fn summarize_fleet(profiles: &[ProfileEntry], process_paths: &[String]) -> (r: FleetSummary)
    ensures
        (r.total as nat, r.running as nat, r.blocked as nat, r.unknown as nat)
            == fleet_counts(profiles@, process_paths@),
        r.running + r.blocked + r.unknown == r.total,
{
    let ghost paths = lower_slashed_all(process_paths@);
    let mut pv: Vec<Vec<char>> = Vec::new();
    let mut used: Vec<bool> = Vec::new();
    let mut k: usize = 0;
    while k < process_paths.len()
        invariant
            k <= process_paths@.len(),
            paths == lower_slashed_all(process_paths@),
            pv@.len() == k,
            used@.len() == k,
            forall|t: int| 0 <= t < k ==> (#[trigger] pv@[t])@ == paths[t],
            forall|t: int| 0 <= t < k ==> !(#[trigger] used@[t]),
        decreases process_paths@.len() - k,
    {
        pv.push(lower_slashed_chars(process_paths[k].as_str()));
        used.push(false);
        k = k + 1;
    }

    let n = process_paths.len();
    let mut running: usize = 0;
    let mut blocked: usize = 0;
    let mut i: usize = 0;
    while i < profiles.len()
        invariant
            i <= profiles@.len(),
            n == process_paths@.len(),
            paths == lower_slashed_all(process_paths@),
            pv@.len() == n,
            used@.len() == n,
            forall|t: int| 0 <= t < n ==> (#[trigger] pv@[t])@ == paths[t],
            forall|t: int| 0 <= t < n ==> (#[trigger] used@[t]) == tally(profiles@.subrange(0, i as int), paths).0.contains(t),
            running as nat == tally(profiles@.subrange(0, i as int), paths).1,
            blocked as nat == tally(profiles@.subrange(0, i as int), paths).2,
            running + blocked <= i,
        decreases profiles@.len() - i,
    {
        let ghost pre = profiles@.subrange(0, i + 1 as int);
        let ghost prev = tally(profiles@.subrange(0, i as int), paths);
        proof {
            assert(pre.drop_last() =~= profiles@.subrange(0, i as int));
            assert(pre.last() == profiles@[i as int]);
        }
        let e = &profiles[i];
        let dir_l = lower_slashed_chars(e.path.as_str());
        let name_l = chars_of(to_lower(e.name.as_str()).as_str());
        let mut segment: Vec<char> = Vec::new();
        segment.push('/');
        let mut c: usize = 0;
        while c < name_l.len()
            invariant
                c <= name_l@.len(),
                segment@ == seq!['/'] + name_l@.subrange(0, c as int),
            decreases name_l@.len() - c,
        {
            segment.push(name_l[c]);
            assert(seq!['/'] + name_l@.subrange(0, c + 1 as int)
                =~= (seq!['/'] + name_l@.subrange(0, c as int)).push(name_l@[c as int]));
            c = c + 1;
        }
        segment.push('/');
        assert(name_l@.subrange(0, c as int) =~= name_l@);

        let mut found: Option<usize> = None;
        let mut j: usize = 0;
        while j < n
            invariant
                j <= n,
                n == process_paths@.len(),
                paths.len() == n,
                pv@.len() == n,
                used@.len() == n,
                forall|t: int| 0 <= t < n ==> (#[trigger] pv@[t])@ == paths[t],
                forall|t: int| 0 <= t < n ==> (#[trigger] used@[t]) == prev.0.contains(t),
                segment@ == seq!['/'] + name_l@ + seq!['/'],
                dir_l@ == lower_slashed(e.path@),
                name_l@ == lower_of(e.name@),
                found is None ==> forall|t: int| 0 <= t < j ==> prev.0.contains(t) || !profile_owns(*e, paths[t]),
                found is Some ==> found.unwrap() < n && first_free(*e, paths, prev.0, 0) == Some(found.unwrap() as int),
            decreases n - j,
        {
            if found.is_none() {
                if !used[j] && owns_exec(&dir_l, &name_l, &segment, &pv[j]) {
                    proof {
                        lemma_first_free_skip(*e, paths, prev.0, 0, j as int);
                        lemma_first_free_found(*e, paths, prev.0, j as int);
                    }
                    found = Some(j);
                }
            }
            j = j + 1;
        }
        match found {
            Some(idx) => {
                used.set(idx, true);
                running = running + 1;
            },
            None => {
                proof {
                    lemma_first_free_none(*e, paths, prev.0, 0);
                }
                if is_likely_logged_out(&e.marker_entries) {
                    blocked = blocked + 1;
                }
            },
        }
        i = i + 1;
    }
    proof {
        assert(profiles@.subrange(0, i as int) =~= profiles@);
        lemma_tally_bounded(profiles@, paths);
    }
    FleetSummary { total: profiles.len(), running, blocked, unknown: profiles.len() - running - blocked }
}

/// The root to reconcile: the requested path once trimmed, unless that is
/// absent or blank, else the saved one, trimmed.
pub open spec fn chosen_root(requested: Option<Seq<char>>, saved: Seq<char>) -> Seq<char> {
    match requested {
        Some(s) if trim_of(s).len() > 0 => trim_of(s),
        _ => trim_of(saved),
    }
}

pub open spec fn option_view(o: Option<String>) -> Option<Seq<char>> {
    match o {
        Some(s) => Some(s@),
        None => None,
    }
}

pub fn resolve_root(requested: &Option<String>, saved: &str) -> (r: String)
    ensures
        r@ == chosen_root(option_view(*requested), saved@),
{
    match requested {
        Some(s) => {
            let t = trimmed(s.as_str());
            if t.as_str().unicode_len() > 0 {
                return t;
            }
            trimmed(saved)
        },
        None => trimmed(saved),
    }
}

/// A fleet where no process lies in any profile and every marker directory
/// looks usable counts every profile as unknown: none running, none blocked.
pub proof fn lemma_idle_fleet(ps: Seq<ProfileEntry>, process_paths: Seq<String>)
    requires
        forall|i: int, j: int| 0 <= i < ps.len() && 0 <= j < process_paths.len()
            ==> !profile_owns(#[trigger] ps[i], lower_slashed(#[trigger] process_paths[j]@)),
        forall|i: int| 0 <= i < ps.len() ==> !likely_logged_out(listing_view(#[trigger] ps[i].marker_entries)),
    ensures
        fleet_counts(ps, process_paths) == (ps.len(), 0nat, 0nat, ps.len()),
    decreases ps.len(),
{
    let paths = lower_slashed_all(process_paths);
    if ps.len() > 0 {
        let init = ps.drop_last();
        assert forall|i: int, j: int| 0 <= i < init.len() && 0 <= j < process_paths.len()
            implies !profile_owns(#[trigger] init[i], lower_slashed(#[trigger] process_paths[j]@)) by {
            assert(init[i] == ps[i]);
        }
        assert forall|i: int| 0 <= i < init.len()
            implies !likely_logged_out(listing_view(#[trigger] init[i].marker_entries)) by {
            assert(init[i] == ps[i]);
        }
        lemma_idle_fleet(init, process_paths);
        assert forall|t: int| 0 <= t < paths.len() implies
            tally(init, paths).0.contains(t) || !profile_owns(ps.last(), paths[t]) by {
            assert(paths[t] == lower_slashed(process_paths[t]@));
            assert(ps.last() == ps[ps.len() - 1]);
        }
        lemma_first_free_none(ps.last(), paths, tally(init, paths).0, 0);
        assert(ps.last() == ps[ps.len() - 1]);
    }
}

} // verus!
