//! Whether a profile that is not running still holds a usable session, judged
//! from the names in its marker directory.
use vstd::prelude::*;
use crate::paths::string_views;
use crate::text::{chars_contain, chars_of, contains, lower_of, to_lower};

verus! {

/// Substrings of an entry name that show a closed or banned session.
pub open spec fn ban_markers() -> Seq<Seq<char>> {
    seq!["deleted"@, "banned"@, "suspended"@, "restricted"@, "unauthorized"@, "logout"@, "blocked"@]
}

/// Substrings of an entry name that belong to a real logged-in session.
pub open spec fn core_markers() -> Seq<Seq<char>> {
    seq!["session"@, "user"@, "key"@, "map"@, "setting"@]
}

pub open spec fn has_marker(name: Seq<char>, markers: Seq<Seq<char>>) -> bool {
    exists|m: int| 0 <= m < markers.len() && contains(name, #[trigger] markers[m])
}

pub open spec fn some_name_has(names: Seq<Seq<char>>, markers: Seq<Seq<char>>) -> bool {
    exists|i: int| 0 <= i < names.len() && has_marker(lower_of(#[trigger] names[i]), markers)
}

/// The classification of a marker directory by the names it lists (`None`
/// when it could not be listed): disabled when unreadable, empty, showing a
/// ban marker, lacking every core artifact, or holding two entries or fewer.
pub open spec fn likely_logged_out(entries: Option<Seq<Seq<char>>>) -> bool {
    match entries {
        None => true,
        Some(names) => {
            ||| names.len() == 0
            ||| some_name_has(names, ban_markers())
            ||| !some_name_has(names, core_markers())
            ||| names.len() <= 2
        },
    }
}

pub open spec fn listing_view(entries: Option<Vec<String>>) -> Option<Seq<Seq<char>>> {
    match entries {
        Some(v) => Some(string_views(v@)),
        None => None,
    }
}

fn has_marker_exec(name: &Vec<char>, markers: &Vec<Vec<char>>, marker_views: Ghost<Seq<Seq<char>>>) -> (r: bool)
    requires
        markers@.len() == marker_views@.len(),
        forall|k: int| 0 <= k < markers@.len() ==> (#[trigger] markers@[k])@ == marker_views@[k],
    ensures
        r == has_marker(name@, marker_views@),
{
    let mut m: usize = 0;
    while m < markers.len()
        invariant
            m <= markers@.len(),
            markers@.len() == marker_views@.len(),
            forall|k: int| 0 <= k < markers@.len() ==> (#[trigger] markers@[k])@ == marker_views@[k],
            forall|k: int| 0 <= k < m ==> !contains(name@, #[trigger] marker_views@[k]),
        decreases markers@.len() - m,
    {
        if chars_contain(name, &markers[m]) {
            return true;
        }
        m = m + 1;
    }
    false
}

fn some_name_has_exec(names: &Vec<String>, markers: &Vec<Vec<char>>, marker_views: Ghost<Seq<Seq<char>>>) -> (r: bool)
    requires
        markers@.len() == marker_views@.len(),
        forall|k: int| 0 <= k < markers@.len() ==> (#[trigger] markers@[k])@ == marker_views@[k],
    ensures
        r == some_name_has(string_views(names@), marker_views@),
{
    let ghost views = string_views(names@);
    let mut i: usize = 0;
    while i < names.len()
        invariant
            i <= names@.len(),
            views == string_views(names@),
            markers@.len() == marker_views@.len(),
            forall|k: int| 0 <= k < markers@.len() ==> (#[trigger] markers@[k])@ == marker_views@[k],
            forall|k: int| 0 <= k < i ==> !has_marker(lower_of(#[trigger] views[k]), marker_views@),
        decreases names@.len() - i,
    {
        let lowered = chars_of(to_lower(names[i].as_str()).as_str());
        assert(views[i as int] == names@[i as int]@);
        if has_marker_exec(&lowered, markers, marker_views) {
            return true;
        }
        i = i + 1;
    }
    false
}

/// Whether a profile's marker directory looks like a closed or banned
/// session. `entry_names` holds the names the directory lists, or `None`
/// when it could not be listed.
pub fn is_likely_logged_out(entry_names: &Option<Vec<String>>) -> (r: bool)
    ensures
        r == likely_logged_out(listing_view(*entry_names)),
        entry_names.is_none() ==> r,
        entry_names.is_some() && entry_names.unwrap()@.len() == 0 ==> r,
{
    match entry_names {
        None => true,
        Some(names) => {
            if names.len() == 0 {
                return true;
            }
            let ban: Vec<Vec<char>> = vec![
                chars_of("deleted"),
                chars_of("banned"),
                chars_of("suspended"),
                chars_of("restricted"),
                chars_of("unauthorized"),
                chars_of("logout"),
                chars_of("blocked"),
            ];
            if some_name_has_exec(names, &ban, Ghost(ban_markers())) {
                return true;
            }
            let core: Vec<Vec<char>> = vec![
                chars_of("session"),
                chars_of("user"),
                chars_of("key"),
                chars_of("map"),
                chars_of("setting"),
            ];
            if !some_name_has_exec(names, &core, Ghost(core_markers())) {
                return true;
            }
            names.len() <= 2
        },
    }
}

} // verus!
