//! Discord tags. A legacy tag has the shape `name#1234`; the
//! username is everything before the first `#`, or the whole string
//! when there is none.
use vstd::prelude::*;
use vstd::string::StrSliceExecFns;

verus! {

/// Length of the prefix before the first `#`, or the whole length
/// when no `#` occurs.
pub open spec fn tag_prefix_len(s: Seq<char>) -> int
    decreases s.len(),
{
    if s.len() == 0 {
        0
    } else if s[0] == '#' {
        0
    } else {
        1 + tag_prefix_len(s.drop_first())
    }
}

/// Where the prefix ends: at the first `#`, or at the end.
pub proof fn lemma_tag_prefix(s: Seq<char>)
    ensures
        0 <= tag_prefix_len(s) <= s.len(),
        tag_prefix_len(s) == s.len() || s[tag_prefix_len(s)] == '#',
        forall|j: int| 0 <= j < tag_prefix_len(s) ==> s[j] != '#',
    decreases s.len(),
{
    if s.len() > 0 && s[0] != '#' {
        let sd = s.drop_first();
        lemma_tag_prefix(sd);
        let l = tag_prefix_len(s);
        if l < s.len() {
            assert(sd[l - 1] == s[l]);
        }
        assert forall|j: int| 0 <= j < l implies s[j] != '#' by {
            if j > 0 {
                assert(sd[j - 1] == s[j]);
            }
        }
    }
}

/// Converse: a position bounding a `#`-free prefix, itself `#` or
/// the end, is the prefix length.
proof fn lemma_tag_prefix_is(s: Seq<char>, k: int)
    requires
        0 <= k <= s.len(),
        k == s.len() || s[k] == '#',
        forall|j: int| 0 <= j < k ==> s[j] != '#',
    ensures
        tag_prefix_len(s) == k,
    decreases k,
{
    if k > 0 {
        let sd = s.drop_first();
        assert(forall|j: int| 0 <= j < sd.len() ==> sd[j] == s[j + 1]);
        lemma_tag_prefix_is(sd, k - 1);
    }
}

/// The username part of a Discord tag: everything before the first
/// `#`, or the whole string when no `#` occurs (an empty first
/// segment stays empty).
pub fn convert_tag_to_username(username: String) -> (r: String)
    ensures
        r@ == username@.subrange(0, tag_prefix_len(username@)),
{
    let s = username.as_str();
    let len = s.unicode_len();
    let mut i: usize = 0;
    while i < len
        invariant
            len == s@.len(),
            0 <= i <= len,
            forall|j: int| 0 <= j < i ==> s@[j] != '#',
        ensures
            0 <= i <= len,
            i < len ==> s@[i as int] == '#',
            forall|j: int| 0 <= j < i ==> s@[j] != '#',
        decreases len - i,
    {
        if s.get_char(i) == '#' {
            break ;
        }
        i = i + 1;
    }
    proof {
        lemma_tag_prefix_is(s@, i as int);
    }
    let prefix = s.substring_char(0, i);
    prefix.to_owned()
}

} // verus!
