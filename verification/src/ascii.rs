//! ASCII-case-insensitive comparison of character sequences. Killer
//! names have case-insensitive identity, and the feed's "UNKNOWN"
//! location sentinel is matched the same way; only the ASCII letters
//! fold.
use vstd::prelude::*;
use vstd::string::StrSliceExecFns;

verus! {

/// The character with any ASCII upper-case letter folded to its
/// lower-case form; every other character is itself.
pub open spec fn lower_char(c: char) -> char {
    if 'A' <= c && c <= 'Z' {
        (((c as u8) + 32) as u8) as char
    } else {
        c
    }
}

/// Equality of character sequences up to ASCII case.
pub open spec fn ci_equal(a: Seq<char>, b: Seq<char>) -> bool {
    a.len() == b.len() && forall|i: int|
        0 <= i < a.len() ==> lower_char(#[trigger] a[i]) == lower_char(b[i])
}

/// `needle` occurs in `hay` as a contiguous run, up to ASCII case.
pub open spec fn ci_contains(hay: Seq<char>, needle: Seq<char>) -> bool {
    exists|k: int|
        0 <= k && k + needle.len() <= hay.len() && ci_equal(
            #[trigger] hay.subrange(k, k + needle.len() as int),
            needle,
        )
}

/// Fold one character's ASCII case.
fn lower_char_x(c: char) -> (r: char)
    ensures
        r == lower_char(c),
{
    if 'A' <= c && c <= 'Z' {
        ((c as u8) + 32) as char
    } else {
        c
    }
}

/// Are two strings equal up to ASCII case?
pub fn str_eq_ignore_case(a: &str, b: &str) -> (r: bool)
    ensures
        r == ci_equal(a@, b@),
{
    let a_len = a.unicode_len();
    let b_len = b.unicode_len();
    if a_len != b_len {
        return false;
    }
    let mut i: usize = 0;
    while i < a_len
        invariant
            a_len == a@.len(),
            b_len == b@.len(),
            a_len == b_len,
            0 <= i <= a_len,
            forall|j: int| 0 <= j < i ==> lower_char(#[trigger] a@[j]) == lower_char(b@[j]),
        decreases a_len - i,
    {
        let ca = a.get_char(i);
        let cb = b.get_char(i);
        if lower_char_x(ca) != lower_char_x(cb) {
            return false;
        }
        i = i + 1;
    }
    true
}

/// Does `needle` match `hay` at offset `k`, up to ASCII case?
fn ci_match_at(hay: &str, hay_len: usize, k: usize, needle: &str, needle_len: usize) -> (r: bool)
    requires
        hay_len == hay@.len(),
        needle_len == needle@.len(),
        k + needle_len <= hay_len,
    ensures
        r == ci_equal(hay@.subrange(k as int, k + needle@.len() as int), needle@),
{
    let ghost sub = hay@.subrange(k as int, k + needle@.len() as int);
    let mut i: usize = 0;
    while i < needle_len
        invariant
            hay_len == hay@.len(),
            needle_len == needle@.len(),
            k + needle_len <= hay_len,
            0 <= i <= needle_len,
            sub == hay@.subrange(k as int, k + needle@.len() as int),
            forall|j: int| 0 <= j < i ==> lower_char(#[trigger] sub[j]) == lower_char(needle@[j]),
        decreases needle_len - i,
    {
        let ch = hay.get_char(k + i);
        let cn = needle.get_char(i);
        if lower_char_x(ch) != lower_char_x(cn) {
            proof {
                assert(sub[i as int] == hay@[k + i]);
            }
            return false;
        }
        proof {
            assert(sub[i as int] == hay@[k + i]);
        }
        i = i + 1;
    }
    true
}

/// Does `hay` contain `needle` as a contiguous run, up to ASCII
/// case?
pub fn str_contains_ignore_case(hay: &str, needle: &str) -> (r: bool)
    ensures
        r == ci_contains(hay@, needle@),
{
    let hay_len = hay.unicode_len();
    let needle_len = needle.unicode_len();
    if needle_len > hay_len {
        return false;
    }
    let mut k: usize = 0;
    while k <= hay_len - needle_len
        invariant
            hay_len == hay@.len(),
            needle_len == needle@.len(),
            needle_len <= hay_len,
            0 <= k <= hay_len - needle_len + 1,
            forall|k0: int|
                0 <= k0 < k ==> !ci_equal(
                    #[trigger] hay@.subrange(k0, k0 + needle@.len() as int),
                    needle@,
                ),
        decreases hay_len - needle_len - k + 1,
    {
        if ci_match_at(hay, hay_len, k, needle, needle_len) {
            return true;
        }
        k = k + 1;
    }
    false
}

} // verus!
