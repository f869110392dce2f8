//! Paths as text. A path is a sequence of characters in which `/` separates
//! components; a run of separators counts as one, and a leading separator is
//! the root component.
use vstd::prelude::*;
use vstd::string::*;

verus! {

/// The path with its trailing separators removed.
pub open spec fn trim_trailing(p: Seq<char>) -> Seq<char>
    decreases p.len(),
{
    if p.len() > 0 && p.last() == '/' {
        trim_trailing(p.drop_last())
    } else {
        p
    }
}

/// The characters after the last separator.
pub open spec fn last_segment(p: Seq<char>) -> Seq<char>
    decreases p.len(),
{
    if p.len() == 0 || p.last() == '/' {
        seq![]
    } else {
        last_segment(p.drop_last()).push(p.last())
    }
}

/// The final component of a path, unless it is empty, `.` or `..`.
pub open spec fn file_name_of(p: Seq<char>) -> Option<Seq<char>> {
    let s = last_segment(trim_trailing(p));
    if s.len() == 0 || s == seq!['.'] || s == seq!['.', '.'] {
        None
    } else {
        Some(s)
    }
}

/// `name` placed inside the directory `dir`.
pub open spec fn join_of(dir: Seq<char>, name: Seq<char>) -> Seq<char> {
    if dir.len() == 0 {
        name
    } else if dir.last() == '/' {
        dir + name
    } else {
        dir + seq!['/'] + name
    }
}

/// Whether `p` lies at or under `q`, compared component by component.
pub open spec fn starts_with_of(p: Seq<char>, q: Seq<char>) -> bool {
    q.len() == 0 || (q.len() <= p.len() && p.subrange(0, q.len() as int) == q && (p.len()
        == q.len() || q.last() == '/' || p[q.len() as int] == '/'))
}

/// Whether position `i` opens a component: the root, or the first character
/// of a name.
pub open spec fn opens_component(p: Seq<char>, i: int) -> bool {
    (i == 0 && p[0] == '/') || (p[i] != '/' && (i == 0 || p[i - 1] == '/'))
}

/// The number of components of a path.
pub open spec fn component_count(p: Seq<char>) -> nat
    decreases p.len(),
{
    if p.len() == 0 {
        0
    } else {
        component_count(p.drop_last()) + if opens_component(p, p.len() - 1) {
            1nat
        } else {
            0nat
        }
    }
}

/// Index of the last `.` of a name, or -1 when it has none.
pub open spec fn last_dot(s: Seq<char>) -> int
    decreases s.len(),
{
    if s.len() == 0 {
        -1
    } else if s.last() == '.' {
        s.len() - 1
    } else {
        last_dot(s.drop_last())
    }
}

/// The name without its extension. A name whose only dot leads it has none.
pub open spec fn stem_of(s: Seq<char>) -> Seq<char> {
    if last_dot(s) <= 0 {
        s
    } else {
        s.subrange(0, last_dot(s))
    }
}

/// The characters after the last dot of a name, unless that dot leads it.
pub open spec fn extension_of(s: Seq<char>) -> Option<Seq<char>> {
    if last_dot(s) <= 0 {
        None
    } else {
        Some(s.subrange(last_dot(s) + 1, s.len() as int))
    }
}

/// The final component of `path`.
pub fn file_name(path: &str) -> (r: Option<String>)
    ensures
        r matches Some(s) ==> file_name_of(path@) == Some(s@),
        r is None ==> file_name_of(path@) is None,
{
    let n = path.unicode_len();
    let mut end = n;
    assert(path@.subrange(0, n as int) =~= path@);
    while end > 0 && path.get_char(end - 1) == '/'
        invariant
            end <= n,
            n == path@.len(),
            trim_trailing(path@) == trim_trailing(path@.subrange(0, end as int)),
        decreases end,
    {
        assert(path@.subrange(0, end as int).drop_last() =~= path@.subrange(0, end - 1));
        end = end - 1;
    }
    let ghost trimmed = path@.subrange(0, end as int);
    assert(trim_trailing(trimmed) == trimmed);
    let mut start = end;
    while start > 0 && path.get_char(start - 1) != '/'
        invariant
            start <= end <= n,
            n == path@.len(),
            trimmed == path@.subrange(0, end as int),
            last_segment(trimmed) == last_segment(path@.subrange(0, start as int))
                + path@.subrange(start as int, end as int),
        decreases start,
    {
        let ghost pre = path@.subrange(0, start as int);
        assert(pre.drop_last() =~= path@.subrange(0, start - 1));
        assert(last_segment(pre) == last_segment(path@.subrange(0, start - 1)).push(
            path@[start - 1],
        ));
        assert(last_segment(pre) + path@.subrange(start as int, end as int) =~= last_segment(
            path@.subrange(0, start - 1),
        ) + path@.subrange(start - 1, end as int));
        start = start - 1;
    }
    assert(last_segment(path@.subrange(0, start as int)) =~= seq![]);
    assert(last_segment(trimmed) =~= path@.subrange(start as int, end as int));
    let seg = path.substring_char(start, end);
    let len = end - start;
    if len == 0 {
        return None;
    }
    if seg.get_char(0) == '.' {
        if len == 1 {
            assert(seg@ =~= seq!['.']);
            return None;
        }
        if len == 2 && seg.get_char(1) == '.' {
            assert(seg@ =~= seq!['.', '.']);
            return None;
        }
    }
    assert(seg@ != seq!['.']) by {
        if seg@ == seq!['.'] {
            assert(seg@[0] == '.');
        }
    }
    assert(seg@ != seq!['.', '.']) by {
        if seg@ == seq!['.', '.'] {
            assert(seg@[0] == '.' && seg@[1] == '.');
        }
    }
    Some(seg.to_owned())
}

/// `name` placed inside the directory `dir`.
pub fn join(dir: &str, name: &str) -> (r: String)
    ensures
        r@ == join_of(dir@, name@),
{
    let n = dir.unicode_len();
    let mut s = dir.to_owned();
    if n == 0 {
        return name.to_owned();
    }
    if dir.get_char(n - 1) != '/' {
        proof {
            reveal_strlit("/");
        }
        s.append("/");
        assert("/"@ =~= seq!['/']);
    }
    s.append(name);
    s
}

/// Whether `path` lies at or under `prefix`, component by component.
pub fn starts_with(path: &str, prefix: &str) -> (r: bool)
    ensures
        r == starts_with_of(path@, prefix@),
{
    let n = path.unicode_len();
    let m = prefix.unicode_len();
    if m == 0 {
        return true;
    }
    if m > n {
        return false;
    }
    let mut i: usize = 0;
    while i < m
        invariant
            n == path@.len(),
            m == prefix@.len(),
            m <= n,
            i <= m,
            path@.subrange(0, i as int) == prefix@.subrange(0, i as int),
        decreases m - i,
    {
        if path.get_char(i) != prefix.get_char(i) {
            assert(path@.subrange(0, m as int)[i as int] != prefix@[i as int]);
            return false;
        }
        assert(path@.subrange(0, i + 1) =~= path@.subrange(0, i as int).push(path@[i as int]));
        assert(prefix@.subrange(0, i + 1) =~= prefix@.subrange(0, i as int).push(
            prefix@[i as int],
        ));
        i = i + 1;
    }
    assert(prefix@.subrange(0, m as int) =~= prefix@);
    m == n || prefix.get_char(m - 1) == '/' || path.get_char(m) == '/'
}

proof fn lemma_component_step(p: Seq<char>, i: int)
    requires
        0 <= i < p.len(),
    ensures
        component_count(p.subrange(0, i + 1)) == component_count(p.subrange(0, i)) + if opens_component(
            p,
            i,
        ) {
            1nat
        } else {
            0nat
        },
{
    let q = p.subrange(0, i + 1);
    assert(q.drop_last() =~= p.subrange(0, i));
    assert(opens_component(q, i) == opens_component(p, i));
}

/// The number of components of `path`.
pub fn component_count_of(path: &str) -> (r: usize)
    ensures
        r == component_count(path@),
{
    let n = path.unicode_len();
    let mut count: usize = 0;
    let mut i: usize = 0;
    let mut prev = '/';
    while i < n
        invariant
            n == path@.len(),
            i <= n,
            count == component_count(path@.subrange(0, i as int)),
            count <= i,
            i > 0 ==> prev == path@[i - 1],
        decreases n - i,
    {
        let c = path.get_char(i);
        proof {
            lemma_component_step(path@, i as int);
        }
        if (i == 0 && c == '/') || (c != '/' && (i == 0 || prev == '/')) {
            count = count + 1;
        }
        prev = c;
        i = i + 1;
    }
    assert(path@.subrange(0, n as int) =~= path@);
    count
}

/// Splits a file name into its stem and its extension.
pub fn split_extension(name: &str) -> (r: (String, Option<String>))
    ensures
        r.0@ == stem_of(name@),
        r.1 matches Some(e) ==> extension_of(name@) == Some(e@),
        r.1 is None ==> extension_of(name@) is None,
{
    let n = name.unicode_len();
    let mut k = n;
    assert(name@.subrange(0, n as int) =~= name@);
    while k > 0 && name.get_char(k - 1) != '.'
        invariant
            k <= n,
            n == name@.len(),
            last_dot(name@) == last_dot(name@.subrange(0, k as int)),
        decreases k,
    {
        assert(name@.subrange(0, k as int).drop_last() =~= name@.subrange(0, k - 1));
        k = k - 1;
    }
    assert(name@.subrange(0, n as int) =~= name@);
    if k <= 1 {
        proof {
            if k == 1 {
                assert(last_dot(name@.subrange(0, 1)) == 0);
            }
        }
        (name.to_owned(), None)
    } else {
        assert(last_dot(name@) == k - 1);
        (name.substring_char(0, k - 1).to_owned(), Some(name.substring_char(k, n).to_owned()))
    }
}

} // verus!
