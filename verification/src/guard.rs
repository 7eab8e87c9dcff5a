//! Path guard: refuses user-selected directories that sit under a protected
//! operating-system path.
//!
//! The match is a plain prefix test on the path's textual form, not a
//! canonicalized or symlink-resolved comparison: a path reached through a
//! symlink that does not lexically match a blocked prefix is not caught.
//! That is a documented limitation of the policy, kept on purpose.

use vstd::prelude::*;

verus! {

/// `p` is a prefix of `s`.
pub open spec fn is_prefix_of(p: Seq<char>, s: Seq<char>) -> bool {
    p.len() <= s.len() && s.subrange(0, p.len() as int) == p
}

/// The deny list covers both path conventions, so the predicate is
/// deterministic on every host: POSIX system roots and the standard
/// Windows system directories.
pub open spec fn is_blocked_path(s: Seq<char>) -> bool {
    ||| is_prefix_of("/usr"@, s)
    ||| is_prefix_of("/etc"@, s)
    ||| is_prefix_of("/bin"@, s)
    ||| is_prefix_of("/sbin"@, s)
    ||| is_prefix_of("/lib"@, s)
    ||| is_prefix_of("/System"@, s)
    ||| is_prefix_of("C:\\Windows"@, s)
    ||| is_prefix_of("C:\\Program Files"@, s)
}

/// Does `s` start with `p`?
pub fn str_starts_with(s: &str, p: &str) -> (r: bool)
    ensures
        r == is_prefix_of(p@, s@),
{
    let s_len = s.unicode_len();
    let p_len = p.unicode_len();
    if p_len > s_len {
        assert(!is_prefix_of(p@, s@));
        return false;
    }
    let mut i: usize = 0;
    while i < p_len
        invariant
            i <= p_len,
            p_len == p@.len(),
            p_len <= s_len == s@.len(),
            forall|k: int| 0 <= k < i ==> s@[k] == p@[k],
        decreases p_len - i,
    {
        if s.get_char(i) != p.get_char(i) {
            assert(s@.subrange(0, p@.len() as int)[i as int] != p@[i as int]);
            return false;
        }
        i = i + 1;
    }
    assert(s@.subrange(0, p@.len() as int) =~= p@);
    true
}

/// A candidate source or destination directory is blocked when its textual
/// form starts with an entry of the platform deny list.
pub fn is_blocked_directory(path: &str) -> (r: bool)
    ensures
        r == is_blocked_path(path@),
{
    str_starts_with(path, "/usr") || str_starts_with(path, "/etc") || str_starts_with(
        path,
        "/bin",
    ) || str_starts_with(path, "/sbin") || str_starts_with(path, "/lib") || str_starts_with(
        path,
        "/System",
    ) || str_starts_with(path, "C:\\Windows") || str_starts_with(path, "C:\\Program Files")
}

} // verus!
