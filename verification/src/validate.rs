//! Input validators used for sanity checks across the application: filenames
//! destined for filesystem operations, free-form string lengths, and theme
//! names.

use vstd::prelude::*;

use crate::numfmt::spec_digits;
use crate::numfmt::usize_to_string;

verus! {

/// A character the filename stem accepts: ASCII alphanumeric, dash or
/// underscore.
pub open spec fn is_word_char(c: char) -> bool {
    ('a' <= c && c <= 'z') || ('A' <= c && c <= 'Z') || ('0' <= c && c <= '9') || c == '_' || c
        == '-'
}

/// A character the extension accepts: ASCII alphanumeric.
pub open spec fn is_alnum_char(c: char) -> bool {
    ('a' <= c && c <= 'z') || ('A' <= c && c <= 'Z') || ('0' <= c && c <= '9')
}

/// The accepted filename shape: a non-empty stem of word characters,
/// optionally followed by a single dot and a non-empty alphanumeric
/// extension.
pub open spec fn spec_filename_shape(s: Seq<char>) -> bool {
    s.len() > 0 && ((forall|i: int| 0 <= i < s.len() ==> is_word_char(#[trigger] s[i])) || (exists|
        k: int,
    |
        1 <= k <= s.len() - 2 && s[k] == '.' && (forall|i: int|
            0 <= i < k ==> is_word_char(#[trigger] s[i])) && (forall|i: int|
            k < i < s.len() ==> is_alnum_char(#[trigger] s[i]))))
}

fn word_char(c: char) -> (r: bool)
    ensures
        r == is_word_char(c),
{
    ('a' <= c && c <= 'z') || ('A' <= c && c <= 'Z') || ('0' <= c && c <= '9') || c == '_' || c
        == '-'
}

fn alnum_char(c: char) -> (r: bool)
    ensures
        r == is_alnum_char(c),
{
    ('a' <= c && c <= 'z') || ('A' <= c && c <= 'Z') || ('0' <= c && c <= '9')
}

/// The position of the first dot of `s`, if any.
fn first_dot(s: &str) -> (r: Option<usize>)
    ensures
        match r {
            Some(k) => k < s@.len() && s@[k as int] == '.' && (forall|t: int|
                0 <= t < k ==> s@[t] != '.'),
            None => forall|t: int| 0 <= t < s@.len() ==> s@[t] != '.',
        },
{
    let n = s.unicode_len();
    let mut i: usize = 0;
    while i < n
        invariant
            i <= n == s@.len(),
            forall|t: int| 0 <= t < i ==> s@[t] != '.',
        decreases n - i,
    {
        if s.get_char(i) == '.' {
            return Some(i);
        }
        i = i + 1;
    }
    None
}

/// Does `s` have the accepted filename shape?
fn filename_shape(s: &str) -> (r: bool)
    ensures
        r == spec_filename_shape(s@),
{
    let n = s.unicode_len();
    if n == 0 {
        return false;
    }
    let dot_found = first_dot(s);
    if dot_found.is_none() {
        // No dot anywhere: every character must be a word character.
        assert(forall|t: int| 0 <= t < n ==> s@[t] != '.');
        let mut j: usize = 0;
        while j < n
            invariant
                j <= n == s@.len(),
                forall|t: int| 0 <= t < n ==> s@[t] != '.',
                forall|t: int| 0 <= t < j ==> is_word_char(#[trigger] s@[t]),
            decreases n - j,
        {
            if !word_char(s.get_char(j)) {
                assert(!spec_filename_shape(s@)) by {
                    assert(s@[j as int] != '.');
                    assert(forall|k: int| 1 <= k <= s@.len() - 2 ==> s@[k] != '.');
                }
                return false;
            }
            j = j + 1;
        }
        return true;
    }
    // `dot` is the first dot of `s`.
    let dot = match dot_found {
        Some(d) => d,
        None => {
            return false;
        },
    };
    assert(s@[dot as int] == '.');
    assert(forall|t: int| 0 <= t < dot ==> s@[t] != '.');
    if dot == 0 || dot > n - 2 {
        assert(!spec_filename_shape(s@)) by {
            assert(!is_word_char(s@[dot as int]));
            if exists|k: int|
                1 <= k <= s@.len() - 2 && s@[k] == '.' && (forall|i2: int|
                    0 <= i2 < k ==> is_word_char(#[trigger] s@[i2])) && (forall|i2: int|
                    k < i2 < s@.len() ==> is_alnum_char(#[trigger] s@[i2])) {
                let k = choose|k: int|
                    1 <= k <= s@.len() - 2 && s@[k] == '.' && (forall|i2: int|
                        0 <= i2 < k ==> is_word_char(#[trigger] s@[i2])) && (forall|i2: int|
                        k < i2 < s@.len() ==> is_alnum_char(#[trigger] s@[i2]));
                if k < dot {
                    assert(s@[k] != '.');
                } else if k > dot {
                    assert(is_word_char(s@[dot as int]));
                }
            }
        }
        return false;
    }
    let mut j: usize = 0;
    while j < dot
        invariant
            j <= dot < n == s@.len(),
            1 <= dot <= n - 2,
            s@[dot as int] == '.',
            forall|t: int| 0 <= t < dot ==> s@[t] != '.',
            forall|t: int| 0 <= t < j ==> is_word_char(#[trigger] s@[t]),
        decreases dot - j,
    {
        if !word_char(s.get_char(j)) {
            assert(!spec_filename_shape(s@)) by {
                refute_shape_with_bad_char(s@, dot as int, j as int);
            }
            return false;
        }
        j = j + 1;
    }
    let mut j2: usize = dot + 1;
    while j2 < n
        invariant
            dot < j2 <= n == s@.len(),
            1 <= dot <= n - 2,
            s@[dot as int] == '.',
            forall|t: int| 0 <= t < dot ==> s@[t] != '.',
            forall|t: int| dot < t < j2 ==> is_alnum_char(#[trigger] s@[t]),
        decreases n - j2,
    {
        if !alnum_char(s.get_char(j2)) {
            assert(!spec_filename_shape(s@)) by {
                refute_shape_with_bad_char(s@, dot as int, j2 as int);
            }
            return false;
        }
        j2 = j2 + 1;
    }
    assert(spec_filename_shape(s@)) by {
        let k = dot as int;
        assert(1 <= k <= s@.len() - 2 && s@[k] == '.' && (forall|i2: int|
            0 <= i2 < k ==> is_word_char(#[trigger] s@[i2])) && (forall|i2: int|
            k < i2 < s@.len() ==> is_alnum_char(#[trigger] s@[i2])));
    }
    true
}

/// With `dot` the first dot of `s` and `bad` a position that is neither a
/// word character before the dot nor alphanumeric after it, the shape fails.
proof fn refute_shape_with_bad_char(s: Seq<char>, dot: int, bad: int)
    requires
        0 <= dot < s.len(),
        s[dot] == '.',
        forall|t: int| 0 <= t < dot ==> s[t] != '.',
        0 <= bad < s.len(),
        bad != dot,
        bad < dot ==> !is_word_char(s[bad]),
        bad > dot ==> !is_alnum_char(s[bad]),
    ensures
        !spec_filename_shape(s),
{
    assert(!is_word_char(s[dot]));
    if exists|k: int|
        1 <= k <= s.len() - 2 && s[k] == '.' && (forall|i2: int|
            0 <= i2 < k ==> is_word_char(#[trigger] s[i2])) && (forall|i2: int|
            k < i2 < s.len() ==> is_alnum_char(#[trigger] s[i2])) {
        let k = choose|k: int|
            1 <= k <= s.len() - 2 && s[k] == '.' && (forall|i2: int|
                0 <= i2 < k ==> is_word_char(#[trigger] s[i2])) && (forall|i2: int|
                k < i2 < s.len() ==> is_alnum_char(#[trigger] s[i2]));
        if k < dot {
            assert(s[k] != '.');
        } else if k > dot {
            assert(is_word_char(s[dot]));
        } else {
            if bad < dot {
                assert(is_word_char(s[bad]));
            } else {
                assert(is_alnum_char(s[bad]));
            }
        }
    }
}

/// Validates a filename for safe filesystem operations: non-empty, at most
/// `100` characters, and only word characters with at most a single
/// dot-separated alphanumeric extension.
pub fn validate_filename(filename: &str) -> (r: Result<(), String>)
    ensures
        r is Ok <==> (1 <= filename@.len() <= 100 && spec_filename_shape(filename@)),
        filename@.len() == 0 ==> match r {
            Err(m) => m@ == "Filename cannot be empty"@,
            Ok(_) => false,
        },
        filename@.len() > 100 ==> match r {
            Err(m) => m@ == "Filename too long (max 100 characters)"@,
            Ok(_) => false,
        },
        1 <= filename@.len() <= 100 && !spec_filename_shape(filename@) ==> match r {
            Err(m) => m@
                == "Invalid filename: only alphanumeric characters, dashes, underscores, and dots allowed"@,
            Ok(_) => false,
        },
{
    let n = filename.unicode_len();
    if n == 0 {
        return Err(String::from_str("Filename cannot be empty"));
    }
    if n > 100 {
        return Err(String::from_str("Filename too long (max 100 characters)"));
    }
    if !filename_shape(filename) {
        return Err(
            String::from_str(
                "Invalid filename: only alphanumeric characters, dashes, underscores, and dots allowed",
            ),
        );
    }
    Ok(())
}

/// Validates an input's length in characters (not bytes) against a cap; the
/// refusal message names the field and the cap.
pub fn validate_string_input(input: &str, max_len: usize, field_name: &str) -> (r: Result<
    (),
    String,
>)
    ensures
        r is Ok <==> input@.len() <= max_len,
        input@.len() > max_len ==> match r {
            Err(m) => m@ == field_name@ + " too long (max "@ + spec_digits(max_len as nat)
                + " characters)"@,
            Ok(_) => false,
        },
{
    let char_count = input.unicode_len();
    if char_count > max_len {
        let mut m = String::from_str(field_name);
        m.append(" too long (max ");
        m.append(usize_to_string(max_len).as_str());
        m.append(" characters)");
        return Err(m);
    }
    Ok(())
}

/// Is `a` the same text as `b`?
pub fn str_eq(a: &str, b: &str) -> (r: bool)
    ensures
        r == (a@ == b@),
{
    let an = a.unicode_len();
    let bn = b.unicode_len();
    if an != bn {
        return false;
    }
    let mut i: usize = 0;
    while i < an
        invariant
            i <= an == a@.len(),
            an == bn == b@.len(),
            forall|t: int| 0 <= t < i ==> a@[t] == b@[t],
        decreases an - i,
    {
        if a.get_char(i) != b.get_char(i) {
            return false;
        }
        i = i + 1;
    }
    assert(a@ =~= b@);
    true
}

/// Validates a theme name: exactly `light`, `dark` or `system` is accepted.
pub fn validate_theme(theme: &str) -> (r: Result<(), String>)
    ensures
        r is Ok <==> (theme@ == "light"@ || theme@ == "dark"@ || theme@ == "system"@),
        r is Err ==> match r {
            Err(m) => m@ == "Invalid theme: must be 'light', 'dark', or 'system'"@,
            Ok(_) => false,
        },
{
    if str_eq(theme, "light") || str_eq(theme, "dark") || str_eq(theme, "system") {
        Ok(())
    } else {
        Err(String::from_str("Invalid theme: must be 'light', 'dark', or 'system'"))
    }
}

} // verus!
