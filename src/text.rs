//! Character-level helpers over paths and names.
use vstd::prelude::*;

verus! {

/// What `str::to_lowercase` makes of a text; it depends on the characters alone.
pub uninterp spec fn lower_of(s: Seq<char>) -> Seq<char>;

/// Relies on `str::to_lowercase` for Unicode-aware lowercasing.
#[verifier::external_body]
pub(crate) fn to_lower(s: &str) -> (r: String)
    ensures
        r@ == lower_of(s@),
{
    s.to_lowercase()
}

/// What `str::trim` makes of a text: it depends on the characters alone.
pub uninterp spec fn trim_of(s: Seq<char>) -> Seq<char>;

/// Relies on `str::trim` to drop leading and trailing Unicode whitespace.
#[verifier::external_body]
pub(crate) fn trimmed(s: &str) -> (r: String)
    ensures
        r@ == trim_of(s@),
{
    s.trim().to_string()
}

/// Relies on `String::push`, which appends one character.
#[verifier::external_body]
fn push_char(s: &mut String, c: char)
    ensures
        final(s)@ == old(s)@.push(c),
{
    s.push(c)
}

pub open spec fn slash_of(c: char) -> char {
    if c == '\\' { '/' } else { c }
}

/// Every backslash turned into a forward slash.
pub open spec fn forward_slashes(s: Seq<char>) -> Seq<char> {
    s.map_values(|c: char| slash_of(c))
}

/// The text with all trailing forward slashes removed.
pub open spec fn trim_end_slashes(s: Seq<char>) -> Seq<char>
    decreases s.len(),
{
    if s.len() > 0 && s.last() == '/' {
        trim_end_slashes(s.drop_last())
    } else {
        s
    }
}

/// A path in the form used for matching: lowercase, forward slashes, no
/// trailing separator.
pub open spec fn normalized(s: Seq<char>) -> Seq<char> {
    trim_end_slashes(forward_slashes(lower_of(s)))
}

/// Lowercase with forward slashes, trailing separators kept.
pub open spec fn lower_slashed(s: Seq<char>) -> Seq<char> {
    forward_slashes(lower_of(s))
}

pub open spec fn starts_with(s: Seq<char>, p: Seq<char>) -> bool {
    p.len() <= s.len() && s.subrange(0, p.len() as int) == p
}

pub open spec fn ends_with(s: Seq<char>, p: Seq<char>) -> bool {
    p.len() <= s.len() && s.subrange(s.len() - p.len(), s.len() as int) == p
}

pub open spec fn occurs_at(s: Seq<char>, p: Seq<char>, i: int) -> bool {
    0 <= i && i + p.len() <= s.len() && s.subrange(i, i + p.len()) == p
}

pub open spec fn contains(s: Seq<char>, p: Seq<char>) -> bool {
    exists|i: int| occurs_at(s, p, i)
}

/// The characters of `s`, one per element.
pub fn chars_of(s: &str) -> (r: Vec<char>)
    ensures
        r@ == s@,
{
    let n = s.unicode_len();
    let mut r: Vec<char> = Vec::new();
    let mut i: usize = 0;
    while i < n
        invariant
            n == s@.len(),
            i <= n,
            r@ == s@.subrange(0, i as int),
        decreases n - i,
    {
        r.push(s.get_char(i));
        i = i + 1;
    }
    assert(r@ =~= s@);
    r
}

/// A `String` holding the characters of `cs[from..to]`.
pub fn string_of(cs: &Vec<char>, from: usize, to: usize) -> (r: String)
    requires
        from <= to <= cs@.len(),
    ensures
        r@ == cs@.subrange(from as int, to as int),
{
    let mut r = String::new();
    let mut i: usize = from;
    while i < to
        invariant
            from <= i <= to <= cs@.len(),
            r@ == cs@.subrange(from as int, i as int),
        decreases to - i,
    {
        push_char(&mut r, cs[i]);
        assert(cs@.subrange(from as int, i + 1) =~= cs@.subrange(from as int, i as int).push(cs@[i as int]));
        i = i + 1;
    }
    r
}

/// Whether `p` occurs in `s` starting at index `at`.
pub fn chars_occur_at(s: &Vec<char>, p: &Vec<char>, at: usize) -> (r: bool)
    requires
        at <= s@.len(),
    ensures
        r == occurs_at(s@, p@, at as int),
{
    if p.len() > s.len() - at {
        return false;
    }
    let n = s.len();
    let mut k: usize = 0;
    while k < p.len()
        invariant
            n == s@.len(),
            at + p@.len() <= s@.len(),
            k <= p@.len(),
            forall|j: int| 0 <= j < k ==> s@[at + j] == p@[j],
        decreases p@.len() - k,
    {
        if s[at + k] != p[k] {
            assert(s@.subrange(at as int, at + p@.len())[k as int] != p@[k as int]);
            return false;
        }
        k = k + 1;
    }
    assert(s@.subrange(at as int, at + p@.len()) =~= p@);
    true
}

pub fn chars_start_with(s: &Vec<char>, p: &Vec<char>) -> (r: bool)
    ensures
        r == starts_with(s@, p@),
{
    chars_occur_at(s, p, 0)
}

pub fn chars_end_with(s: &Vec<char>, p: &Vec<char>) -> (r: bool)
    ensures
        r == ends_with(s@, p@),
{
    if p.len() > s.len() {
        return false;
    }
    chars_occur_at(s, p, s.len() - p.len())
}

pub fn chars_contain(s: &Vec<char>, p: &Vec<char>) -> (r: bool)
    ensures
        r == contains(s@, p@),
{
    if p.len() > s.len() {
        return false;
    }
    let last = s.len() - p.len();
    let mut i: usize = 0;
    loop
        invariant
            last + p@.len() == s@.len(),
            i <= last,
            forall|j: int| 0 <= j < i ==> !occurs_at(s@, p@, j),
        decreases last - i,
    {
        if chars_occur_at(s, p, i) {
            return true;
        }
        if i == last {
            return false;
        }
        i = i + 1;
    }
}

/// Replaces every backslash by a forward slash.
pub fn slashes_forward(s: &Vec<char>) -> (r: Vec<char>)
    ensures
        r@ == forward_slashes(s@),
{
    let mut r: Vec<char> = Vec::new();
    let mut i: usize = 0;
    while i < s.len()
        invariant
            i <= s@.len(),
            r@ == forward_slashes(s@.subrange(0, i as int)),
        decreases s@.len() - i,
    {
        let c = s[i];
        r.push(if c == '\\' { '/' } else { c });
        assert(forward_slashes(s@.subrange(0, i + 1)) =~= forward_slashes(s@.subrange(0, i as int)).push(slash_of(c)));
        i = i + 1;
    }
    assert(s@.subrange(0, s@.len() as int) =~= s@);
    r
}

proof fn lemma_trim_prefix(s: Seq<char>, k: int)
    requires
        0 <= k <= s.len(),
        forall|j: int| k <= j < s.len() ==> s[j] == '/',
    ensures
        trim_end_slashes(s) == trim_end_slashes(s.subrange(0, k)),
    decreases s.len() - k,
{
    if k < s.len() {
        assert(s.drop_last() =~= s.subrange(0, s.len() - 1));
        lemma_trim_prefix(s.drop_last(), k);
        assert(s.drop_last().subrange(0, k) =~= s.subrange(0, k));
    } else {
        assert(s.subrange(0, k) =~= s);
    }
}

/// The length of `s` once its trailing forward slashes are dropped.
pub fn trimmed_len(s: &Vec<char>) -> (k: usize)
    ensures
        k <= s@.len(),
        trim_end_slashes(s@) == s@.subrange(0, k as int),
{
    let mut k: usize = s.len();
    while k > 0 && s[k - 1] == '/'
        invariant
            k <= s@.len(),
            forall|j: int| k <= j < s@.len() ==> s@[j] == '/',
        decreases k,
    {
        k = k - 1;
    }
    proof {
        lemma_trim_prefix(s@, k as int);
        let t = s@.subrange(0, k as int);
        if k > 0 {
            assert(t.last() == s@[k - 1]);
        }
    }
    k
}

/// The path in matching form: lowercased, every backslash made a forward
/// slash, trailing slashes dropped.
pub fn normalize_path_for_match(value: &str) -> (r: String)
    ensures
        r@ == normalized(value@),
{
    let lower = to_lower(value);
    let cs = slashes_forward(&chars_of(lower.as_str()));
    let k = trimmed_len(&cs);
    string_of(&cs, 0, k)
}

/// A path already in matching form: lowercasing leaves it as it is, it holds
/// no backslash and it does not end in a slash.
pub open spec fn is_normalized(s: Seq<char>) -> bool {
    &&& lower_of(s) == s
    &&& !s.contains('\\')
    &&& !(s.len() > 0 && s.last() == '/')
}

proof fn lemma_forward_slashes_fixed(s: Seq<char>)
    requires
        !s.contains('\\'),
    ensures
        forward_slashes(s) == s,
{
    assert forall|i: int| 0 <= i < s.len() implies forward_slashes(s)[i] == s[i] by {
        assert(s[i] != '\\');
    }
    assert(forward_slashes(s) =~= s);
}

proof fn lemma_trim_end_slashes_shape(s: Seq<char>)
    ensures
        !(trim_end_slashes(s).len() > 0 && trim_end_slashes(s).last() == '/'),
        forall|c: char| trim_end_slashes(s).contains(c) ==> s.contains(c),
    decreases s.len(),
{
    if s.len() > 0 && s.last() == '/' {
        lemma_trim_end_slashes_shape(s.drop_last());
        assert forall|c: char| s.drop_last().contains(c) implies s.contains(c) by {
            let i = choose|i: int| 0 <= i < s.drop_last().len() && s.drop_last()[i] == c;
            assert(s[i] == c);
        }
    }
}

/// Normalizing a path that is already in matching form returns it unchanged.
pub proof fn lemma_normalize_keeps_normalized(s: Seq<char>)
    requires
        is_normalized(s),
    ensures
        normalized(s) == s,
{
    lemma_forward_slashes_fixed(s);
}

/// Whatever the input, the normalized path holds no backslash and does not
/// end in a slash.
pub proof fn lemma_normalized_shape(s: Seq<char>)
    ensures
        !normalized(s).contains('\\'),
        !(normalized(s).len() > 0 && normalized(s).last() == '/'),
{
    let f = forward_slashes(lower_of(s));
    lemma_trim_end_slashes_shape(f);
    if f.contains('\\') {
        let i = choose|i: int| 0 <= i < f.len() && f[i] == '\\';
        assert(f[i] == slash_of(lower_of(s)[i]));
    }
}

/// Normalizing twice gives what normalizing once gave, for every path whose
/// normalized form lowercasing leaves unchanged.
pub proof fn lemma_normalize_idempotent(s: Seq<char>)
    requires
        lower_of(normalized(s)) == normalized(s),
    ensures
        normalized(normalized(s)) == normalized(s),
{
    lemma_normalized_shape(s);
    lemma_normalize_keeps_normalized(normalized(s));
}

} // verus!
