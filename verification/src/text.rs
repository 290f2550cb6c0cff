use vstd::prelude::*;

verus! {

/// The views of a sequence of strings.
pub open spec fn strings_view(v: Seq<String>) -> Seq<Seq<char>> {
    v.map_values(|s: String| s@)
}

/// The view of an optional string.
pub open spec fn opt_view(o: Option<String>) -> Option<Seq<char>> {
    match o {
        Some(s) => Some(s@),
        None => None,
    }
}

/// Whether `prefix` is a prefix of `s`, as `str::starts_with` decides for a
/// string pattern.
pub open spec fn spec_starts_with(s: Seq<char>, prefix: Seq<char>) -> bool {
    prefix.len() <= s.len() && s.subrange(0, prefix.len() as int) == prefix
}

/// Whether `s` starts with `prefix`.
pub fn starts_with(s: &str, prefix: &str) -> (r: bool)
    ensures
        r == spec_starts_with(s@, prefix@),
{
    let n = prefix.unicode_len();
    let m = s.unicode_len();
    if n > m {
        return false;
    }
    let mut i: usize = 0;
    while i < n
        invariant
            n == prefix@.len(),
            m == s@.len(),
            n <= m,
            i <= n,
            forall|j: int| 0 <= j < i ==> s@[j] == prefix@[j],
        decreases n - i,
    {
        if s.get_char(i) != prefix.get_char(i) {
            assert(s@.subrange(0, n as int)[i as int] != prefix@[i as int]);
            return false;
        }
        i = i + 1;
    }
    assert(s@.subrange(0, n as int) =~= prefix@);
    true
}

/// Whether two strings hold the same characters.
pub fn str_eq(a: &str, b: &str) -> (r: bool)
    ensures
        r == (a@ == b@),
{
    a.to_owned() == b.to_owned()
}

/// Concatenates two strings.
pub fn concat(a: &str, b: &str) -> (r: String)
    ensures
        r@ == a@ + b@,
{
    let mut s = a.to_owned();
    s.append(b);
    s
}

/// Copies a vector of strings.
pub fn copy_strings(v: &Vec<String>) -> (r: Vec<String>)
    ensures
        r@ == v@,
{
    let mut r: Vec<String> = Vec::new();
    let mut i: usize = 0;
    while i < v.len()
        invariant
            i <= v@.len(),
            r@ == v@.subrange(0, i as int),
        decreases v@.len() - i,
    {
        r.push(v[i].clone());
        i = i + 1;
        assert(r@ =~= v@.subrange(0, i as int));
    }
    assert(v@.subrange(0, v@.len() as int) =~= v@);
    r
}

/// Whether `c` separates the components of a path on some build target
/// (a slash everywhere, a backslash on Windows).
pub open spec fn is_separator(c: char) -> bool {
    c == '/' || c == '\\'
}

/// Whether, as text, `p` names a path inside the directory `dir`: `p` is
/// `dir` followed by more, and a separator ends `dir` or comes right after
/// it in `p` (as in what `Path::join` makes of `dir` and a name).
pub open spec fn text_within(p: Seq<char>, dir: Seq<char>) -> bool {
    &&& spec_starts_with(p, dir)
    &&& p.len() > dir.len()
    &&& (dir.len() > 0 && is_separator(dir.last())) || is_separator(p[dir.len() as int])
}

/// Whether, as text, `p` is `dir` or names a path inside it.
pub open spec fn text_at_or_within(p: Seq<char>, dir: Seq<char>) -> bool {
    p == dir || text_within(p, dir)
}

/// A path inside a path inside `dir` is inside `dir`.
pub proof fn lemma_within_within(a: Seq<char>, b: Seq<char>, c: Seq<char>)
    requires
        text_at_or_within(a, b),
        text_at_or_within(b, c),
    ensures
        text_at_or_within(a, c),
{
    if a != b && b != c {
        assert(a.subrange(0, c.len() as int) =~= a.subrange(0, b.len() as int).subrange(0, c.len() as int));
        assert(a[c.len() as int] == a.subrange(0, b.len() as int)[c.len() as int]);
    }
}

/// Whether `c` is a path separator on some build target.
pub fn is_separator_char(c: char) -> (r: bool)
    ensures
        r == is_separator(c),
{
    c == '/' || c == '\\'
}

/// Whether, as text, `p` names a path inside the directory `dir`.
pub fn within(p: &str, dir: &str) -> (r: bool)
    ensures
        r == text_within(p@, dir@),
{
    if !starts_with(p, dir) {
        return false;
    }
    let n = dir.unicode_len();
    let m = p.unicode_len();
    if m <= n {
        return false;
    }
    if n > 0 && is_separator_char(dir.get_char(n - 1)) {
        return true;
    }
    is_separator_char(p.get_char(n))
}

/// Whether, as text, `p` is `dir` or names a path inside it.
pub fn at_or_within(p: &str, dir: &str) -> (r: bool)
    ensures
        r == text_at_or_within(p@, dir@),
{
    str_eq(p, dir) || within(p, dir)
}

} // verus!
