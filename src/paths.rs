//! Profile directory names, their place under the root, and path matching.
use vstd::prelude::*;
use crate::text::{
    chars_of, chars_start_with, normalize_path_for_match, normalized, starts_with,
};

verus! {

pub open spec fn digit_char(d: int) -> char {
    if d == 0 { '0' }
    else if d == 1 { '1' }
    else if d == 2 { '2' }
    else if d == 3 { '3' }
    else if d == 4 { '4' }
    else if d == 5 { '5' }
    else if d == 6 { '6' }
    else if d == 7 { '7' }
    else if d == 8 { '8' }
    else { '9' }
}

/// Decimal digits of a natural number, most significant first.
pub open spec fn digits_of(n: nat) -> Seq<char>
    decreases n,
{
    if n < 10 {
        seq![digit_char(n as int)]
    } else {
        digits_of(n / 10).push(digit_char((n % 10) as int))
    }
}

/// An integer written in decimal, with a leading minus sign when negative.
pub open spec fn decimal_of(v: int) -> Seq<char> {
    if v < 0 {
        seq!['-'] + digits_of((-v) as nat)
    } else {
        digits_of(v as nat)
    }
}

/// The directory name of a profile: `TG <id>`.
pub open spec fn profile_name(id: int) -> Seq<char> {
    seq!['T', 'G', ' '] + decimal_of(id)
}

/// The file name of the executable inside a profile directory.
pub open spec fn exe_name() -> Seq<char> {
    seq!['T', 'e', 'l', 'e', 'g', 'r', 'a', 'm', '.', 'e', 'x', 'e']
}

fn digit_char_exec(d: u32) -> (c: char)
    requires
        d < 10,
    ensures
        c == digit_char(d as int),
{
    if d == 0 { '0' }
    else if d == 1 { '1' }
    else if d == 2 { '2' }
    else if d == 3 { '3' }
    else if d == 4 { '4' }
    else if d == 5 { '5' }
    else if d == 6 { '6' }
    else if d == 7 { '7' }
    else if d == 8 { '8' }
    else { '9' }
}

fn push_digits(out: &mut Vec<char>, n: u32)
    ensures
        final(out)@ == old(out)@ + digits_of(n as nat),
    decreases n,
{
    if n >= 10 {
        push_digits(out, n / 10);
    }
    out.push(digit_char_exec(n % 10));
    assert(final(out)@ =~= old(out)@ + digits_of(n as nat));
}

/// The directory name of profile `id`, as characters.
pub fn profile_name_chars(id: i32) -> (r: Vec<char>)
    ensures
        r@ == profile_name(id as int),
{
    let mut r: Vec<char> = Vec::new();
    r.push('T');
    r.push('G');
    r.push(' ');
    let magnitude: u32 = if id < 0 {
        r.push('-');
        (-(id as i64)) as u32
    } else {
        id as u32
    };
    push_digits(&mut r, magnitude);
    assert(r@ =~= profile_name(id as int));
    r
}

/// A path that Windows reads verbatim (`\\?\...`).
pub open spec fn is_verbatim(base: Seq<char>) -> bool {
    base.len() >= 4 && base[0] == '\\' && base[1] == '\\' && base[2] == '?' && base[3] == '\\'
}

/// `j` is `base` followed by `name`, with at most one separator between them.
pub open spec fn joined(base: Seq<char>, name: Seq<char>, j: Seq<char>) -> bool {
    ||| j == base + name
    ||| j == base + seq!['/'] + name
    ||| j == base + seq!['\\'] + name
}

/// A single relative path component: no separator and no drive colon.
pub open spec fn plain_component(name: Seq<char>) -> bool {
    &&& name.len() > 0
    &&& forall|i: int| 0 <= i < name.len() ==> name[i] != '/' && name[i] != '\\' && name[i] != ':'
}

/// Relies on `Path::join`: a relative component is appended to the base, after
/// the platform separator unless the base is empty, a bare drive or ends in a
/// separator. Verbatim Windows bases are rebuilt from their components, so
/// nothing is claimed of them.
#[verifier::external_body]
fn join_path(base: &str, name: &Vec<char>) -> (r: String)
    requires
        plain_component(name@),
    ensures
        !is_verbatim(base@) ==> joined(base@, name@, r@),
{
    let name: String = name.iter().collect();
    std::path::Path::new(base).join(name).to_string_lossy().into_owned()
}

/// The directory of profile `id` under `root`.
pub fn profile_dir_path(root: &str, id: i32) -> (r: String)
    ensures
        !is_verbatim(root@) ==> joined(root@, profile_name(id as int), r@),
{
    let name = profile_name_chars(id);
    proof {
        assert forall|i: int| 0 <= i < name@.len() implies name@[i] != '/' && name@[i] != '\\'
            && name@[i] != ':' by {
            if i >= 3 {
                lemma_decimal_chars(id as int, i - 3);
            }
        }
    }
    join_path(root, &name)
}

/// The executable of profile `id` under `root`.
pub fn profile_exe_path(root: &str, id: i32) -> (r: String)
    ensures
        !is_verbatim(root@) ==> exists|d: Seq<char>|
            joined(root@, profile_name(id as int), d) && (!is_verbatim(d) ==> joined(d, exe_name(), r@)),
{
    let dir = profile_dir_path(root, id);
    let exe: Vec<char> = vec!['T', 'e', 'l', 'e', 'g', 'r', 'a', 'm', '.', 'e', 'x', 'e'];
    assert(exe@ =~= exe_name());
    join_path(dir.as_str(), &exe)
}

proof fn lemma_digit_plain(d: int)
    ensures
        digit_char(d) != '/' && digit_char(d) != '\\' && digit_char(d) != ':' && digit_char(d) != '?',
{
}

proof fn lemma_digits_plain(n: nat, i: int)
    requires
        0 <= i < digits_of(n).len(),
    ensures
        digits_of(n)[i] != '/' && digits_of(n)[i] != '\\' && digits_of(n)[i] != ':',
    decreases n,
{
    if n >= 10 {
        if i < digits_of(n / 10).len() {
            lemma_digits_plain(n / 10, i);
        } else {
            lemma_digit_plain((n % 10) as int);
        }
    } else {
        lemma_digit_plain(n as int);
    }
}

proof fn lemma_decimal_chars(v: int, i: int)
    requires
        0 <= i < decimal_of(v).len(),
    ensures
        decimal_of(v)[i] != '/' && decimal_of(v)[i] != '\\' && decimal_of(v)[i] != ':',
{
    if v < 0 {
        if i > 0 {
            lemma_digits_plain((-v) as nat, i - 1);
        }
    } else {
        lemma_digits_plain(v as nat, i);
    }
}

/// The views of a sequence of strings.
pub open spec fn string_views(v: Seq<String>) -> Seq<Seq<char>> {
    v.map_values(|s: String| s@)
}

/// A normalized profile directory is kept when it is non-empty and lies
/// under the normalized root.
pub open spec fn keeps_dir(d: Seq<char>, root_norm: Seq<char>) -> bool {
    d.len() > 0 && starts_with(d, root_norm)
}

/// The directories of `ds` that are kept, in order.
pub open spec fn kept_dirs(ds: Seq<Seq<char>>, root_norm: Seq<char>) -> Seq<Seq<char>>
    decreases ds.len(),
{
    if ds.len() == 0 {
        Seq::empty()
    } else {
        let rest = kept_dirs(ds.drop_last(), root_norm);
        if keeps_dir(ds.last(), root_norm) {
            rest.push(ds.last())
        } else {
            rest
        }
    }
}

pub proof fn lemma_kept_dirs_under_root(ds: Seq<Seq<char>>, root_norm: Seq<char>)
    ensures
        kept_dirs(ds, root_norm).len() <= ds.len(),
        forall|k: int| 0 <= k < kept_dirs(ds, root_norm).len()
            ==> keeps_dir(#[trigger] kept_dirs(ds, root_norm)[k], root_norm),
    decreases ds.len(),
{
    if ds.len() > 0 {
        lemma_kept_dirs_under_root(ds.drop_last(), root_norm);
    }
}

/// `js` holds, for each id, the directory of that profile joined onto `root`.
pub open spec fn profile_dirs_joined(root: Seq<char>, ids: Seq<i32>, js: Seq<Seq<char>>) -> bool {
    &&& js.len() == ids.len()
    &&& forall|i: int| 0 <= i < js.len() ==> is_verbatim(root)
        || joined(root, profile_name(ids[i] as int), #[trigger] js[i])
}

pub open spec fn normalized_all(js: Seq<Seq<char>>) -> Seq<Seq<char>> {
    js.map_values(|j: Seq<char>| normalized(j))
}

/// The normalized directories of the given profiles under `root_raw`,
/// leaving out any that is empty or does not lie under `root_norm`.
pub fn build_account_dirs(account_ids: &[i32], root_raw: &str, root_norm: &str) -> (r: Vec<String>)
    ensures
        exists|js: Seq<Seq<char>>| {
            &&& #[trigger] profile_dirs_joined(root_raw@, account_ids@, js)
            &&& string_views(r@) == kept_dirs(normalized_all(js), root_norm@)
        },
        r@.len() <= account_ids@.len(),
        forall|k: int| 0 <= k < r@.len() ==> keeps_dir(#[trigger] r@[k]@, root_norm@),
{
    let root_chars = chars_of(root_norm);
    let mut r: Vec<String> = Vec::new();
    let ghost mut js: Seq<Seq<char>> = Seq::empty();
    let mut i: usize = 0;
    while i < account_ids.len()
        invariant
            i <= account_ids@.len(),
            root_chars@ == root_norm@,
            profile_dirs_joined(root_raw@, account_ids@.subrange(0, i as int), js),
            string_views(r@) == kept_dirs(normalized_all(js), root_norm@),
        decreases account_ids@.len() - i,
    {
        let joined_path = profile_dir_path(root_raw, account_ids[i]);
        let dir = normalize_path_for_match(joined_path.as_str());
        let dir_chars = chars_of(dir.as_str());
        let ghost old_js = js;
        let ghost old_r = r@;
        proof {
            js = js.push(joined_path@);
            assert(normalized_all(js).drop_last() =~= normalized_all(old_js));
        }
        if dir_chars.len() > 0 && chars_start_with(&dir_chars, &root_chars) {
            r.push(dir);
            assert(string_views(r@) =~= string_views(old_r).push(dir@));
        }
        i = i + 1;
    }
    proof {
        assert(account_ids@.subrange(0, i as int) =~= account_ids@);
        lemma_kept_dirs_under_root(normalized_all(js), root_norm@);
        assert forall|k: int| 0 <= k < r@.len() implies keeps_dir(#[trigger] r@[k]@, root_norm@) by {
            assert(string_views(r@)[k] == r@[k]@);
        }
    }
    r
}

/// A process path lies in directory `dir`: it is the directory itself or
/// starts with the directory followed by a slash.
pub open spec fn dir_matches(path: Seq<char>, dir: Seq<char>) -> bool {
    path == dir || starts_with(path, dir + seq!['/'])
}

pub fn chars_dir_match(path: &Vec<char>, dir: &Vec<char>) -> (r: bool)
    ensures
        r == dir_matches(path@, dir@),
{
    if path.len() < dir.len() {
        assert(path@ != dir@);
        return false;
    }
    if !chars_start_with(path, dir) {
        assert(path@ != dir@ ==> !starts_with(path@, dir@ + seq!['/'])) by {
            if starts_with(path@, dir@ + seq!['/']) {
                assert(path@.subrange(0, dir@.len() as int)
                    =~= path@.subrange(0, dir@.len() + 1 as int).subrange(0, dir@.len() as int));
                assert(path@.subrange(0, dir@.len() + 1 as int).subrange(0, dir@.len() as int)
                    =~= (dir@ + seq!['/']).subrange(0, dir@.len() as int));
                assert((dir@ + seq!['/']).subrange(0, dir@.len() as int) =~= dir@);
            }
        }
        assert(path@ != dir@) by {
            if path@ == dir@ {
                assert(path@.subrange(0, dir@.len() as int) =~= dir@);
            }
        }
        return false;
    }
    if path.len() == dir.len() {
        assert(path@ =~= dir@) by {
            assert(path@.subrange(0, dir@.len() as int) =~= path@);
        }
        return true;
    }
    let sep = path[dir.len()] == '/';
    proof {
        let n = dir@.len() as int;
        if sep {
            assert(path@.subrange(0, n + 1) =~= dir@ + seq!['/']) by {
                assert forall|t: int| 0 <= t < n + 1 implies path@.subrange(0, n + 1)[t]
                    == (dir@ + seq!['/'])[t] by {
                    if t < n {
                        assert(path@.subrange(0, n)[t] == dir@[t]);
                    }
                }
            }
        } else {
            if starts_with(path@, dir@ + seq!['/']) {
                assert(path@.subrange(0, n + 1)[n] == (dir@ + seq!['/'])[n]);
            }
            assert(path@.len() != dir@.len());
        }
    }
    sep
}

/// Matching is prefix-safe: when one path lies in two directories, they are
/// the same directory or the shorter is a parent of the longer, never a mere
/// textual prefix of it (`tg 1` is no parent of `tg 15`).
pub proof fn lemma_match_prefix_safe(path: Seq<char>, a: Seq<char>, b: Seq<char>)
    requires
        dir_matches(path, a),
        dir_matches(path, b),
        a.len() <= b.len(),
    ensures
        a == b || starts_with(b, a + seq!['/']),
{
    let n = a.len() as int;
    assert(b.len() <= path.len()) by {
        if path != b {
            assert(starts_with(path, b + seq!['/']));
        }
    }
    assert(forall|t: int| 0 <= t < n ==> a[t] == path[t]) by {
        if path != a {
            assert forall|t: int| 0 <= t < n implies a[t] == path[t] by {
                assert(path.subrange(0, n + 1)[t] == (a + seq!['/'])[t]);
            }
        }
    }
    assert(forall|t: int| 0 <= t < b.len() ==> b[t] == path[t]) by {
        if path != b {
            assert forall|t: int| 0 <= t < b.len() implies b[t] == path[t] by {
                assert(path.subrange(0, b.len() + 1 as int)[t] == (b + seq!['/'])[t]);
            }
        }
    }
    if a.len() == b.len() {
        assert(a =~= b);
    } else {
        assert(path != a);
        assert(path[n] == '/') by {
            assert(path.subrange(0, n + 1)[n] == (a + seq!['/'])[n]);
        }
        assert(b.subrange(0, n + 1) =~= a + seq!['/']);
    }
}

} // verus!
