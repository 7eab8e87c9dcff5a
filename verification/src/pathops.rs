//! Textual path operations.
//!
//! The engine works on the textual form of paths, with `/` and `\` accepted
//! as component separators. Joining uses `/`, the convention of the primary
//! platform; a directory that already ends in a separator gets no second one.

use vstd::prelude::*;

verus! {

/// A path component separator.
pub open spec fn is_sep(c: char) -> bool {
    c == '/' || c == '\\'
}

/// The index just after the last separator of `s`; `0` when `s` has none.
pub open spec fn split_point(s: Seq<char>) -> int
    decreases s.len(),
{
    if s.len() == 0 {
        0
    } else if is_sep(s[s.len() - 1]) {
        s.len() as int
    } else {
        split_point(s.drop_last())
    }
}

pub proof fn lemma_split_point_bounds(s: Seq<char>)
    ensures
        0 <= split_point(s) <= s.len(),
    decreases s.len(),
{
    if s.len() > 0 && !is_sep(s[s.len() - 1]) {
        lemma_split_point_bounds(s.drop_last());
    }
}

/// The filename component: what follows the last separator, unless that is
/// empty or one of the relative markers `.` and `..`.
pub open spec fn spec_file_name(s: Seq<char>) -> Option<Seq<char>> {
    let f = s.subrange(split_point(s), s.len() as int);
    if f.len() == 0 || f == "."@ || f == ".."@ {
        None
    } else {
        Some(f)
    }
}

/// The parent directory: what precedes the filename component, without its
/// trailing separator unless that separator is the whole root.
pub open spec fn spec_parent(s: Seq<char>) -> Seq<char> {
    let k = split_point(s);
    if k == 0 {
        Seq::<char>::empty()
    } else if k == 1 {
        s.subrange(0, 1)
    } else {
        s.subrange(0, k - 1)
    }
}

/// Joining a directory and a further component.
pub open spec fn spec_join(dir: Seq<char>, name: Seq<char>) -> Seq<char> {
    if dir.len() == 0 {
        name
    } else if is_sep(dir[dir.len() - 1]) {
        dir + name
    } else {
        dir + seq!['/'] + name
    }
}

pub open spec fn is_ascii_alpha(c: char) -> bool {
    ('a' <= c && c <= 'z') || ('A' <= c && c <= 'Z')
}

/// Absolute paths: a leading separator, or a drive-letter prefix such as
/// `C:\`.
pub open spec fn spec_is_absolute(s: Seq<char>) -> bool {
    s.len() > 0 && (is_sep(s[0]) || (s.len() >= 3 && is_ascii_alpha(s[0]) && s[1] == ':' && is_sep(
        s[2],
    )))
}

/// Finds the index just after the last separator of `s`.
pub fn find_split_point(s: &str) -> (r: usize)
    ensures
        r == split_point(s@),
{
    let n = s.unicode_len();
    let mut i: usize = n;
    assert(s@.take(n as int) =~= s@);
    while i > 0
        invariant
            i <= n == s@.len(),
            split_point(s@) == split_point(s@.take(i as int)),
        decreases i,
    {
        let c = s.get_char(i - 1);
        if c == '/' || c == '\\' {
            assert(s@.take(i as int)[i - 1] == s@[i - 1]);
            return i;
        }
        proof {
            assert(s@.take(i as int)[i - 1] == s@[i - 1]);
            assert(s@.take(i as int).drop_last() =~= s@.take(i as int - 1));
        }
        i = i - 1;
    }
    assert(s@.take(0) =~= Seq::<char>::empty());
    0
}

/// The filename component of `s`, or `None` when there is none to act on.
pub fn file_name_of(s: &str) -> (r: Option<String>)
    ensures
        match r {
            Some(f) => spec_file_name(s@) == Some(f@),
            None => spec_file_name(s@) is None,
        },
{
    let n = s.unicode_len();
    let k = find_split_point(s);
    proof {
        lemma_split_point_bounds(s@);
    }
    let f = s.substring_char(k, n);
    let f_len = n - k;
    proof {
        reveal_strlit(".");
        reveal_strlit("..");
    }
    if f_len == 0 {
        return None;
    }
    if f_len == 1 && f.get_char(0) == '.' {
        assert(f@ =~= "."@);
        return None;
    }
    if f_len == 2 && f.get_char(0) == '.' && f.get_char(1) == '.' {
        assert(f@ =~= ".."@);
        return None;
    }
    assert(f@ != "."@ && f@ != ".."@) by {
        if f@ == "."@ {
            assert(f@[0] == '.');
        }
        if f@ == ".."@ {
            assert(f@[0] == '.' && f@[1] == '.');
        }
    }
    Some(String::from_str(f))
}

/// The parent directory of `s`.
pub fn parent_of(s: &str) -> (r: String)
    ensures
        r@ == spec_parent(s@),
{
    let k = find_split_point(s);
    proof {
        lemma_split_point_bounds(s@);
    }
    if k == 0 {
        String::new()
    } else if k == 1 {
        String::from_str(s.substring_char(0, 1))
    } else {
        String::from_str(s.substring_char(0, k - 1))
    }
}

/// Joins `dir` and `name` textually.
pub fn join_path(dir: &str, name: &str) -> (r: String)
    ensures
        r@ == spec_join(dir@, name@),
{
    let n = dir.unicode_len();
    if n == 0 {
        return String::from_str(name);
    }
    let last = dir.get_char(n - 1);
    let mut out = String::from_str(dir);
    if !(last == '/' || last == '\\') {
        out.append("/");
        proof {
            reveal_strlit("/");
            assert("/"@ =~= seq!['/']);
        }
    }
    out.append(name);
    out
}

/// Is `s` textually absolute?
pub fn is_absolute_path(s: &str) -> (r: bool)
    ensures
        r == spec_is_absolute(s@),
{
    let n = s.unicode_len();
    if n == 0 {
        return false;
    }
    let c0 = s.get_char(0);
    if c0 == '/' || c0 == '\\' {
        return true;
    }
    if n >= 3 {
        let c1 = s.get_char(1);
        let c2 = s.get_char(2);
        let alpha = ('a' <= c0 && c0 <= 'z') || ('A' <= c0 && c0 <= 'Z');
        return alpha && c1 == ':' && (c2 == '/' || c2 == '\\');
    }
    false
}

} // verus!
