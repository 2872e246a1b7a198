//! Small verified helpers over strings, used by the routing table, the
//! update classifier and the formatter.

use vstd::prelude::*;

verus! {

/// Character-wise equality of two string slices.
pub fn str_eq(a: &str, b: &str) -> (r: bool)
    ensures
        r == (a@ == b@),
{
    let a_len = a.unicode_len();
    let b_len = b.unicode_len();
    if a_len != b_len {
        assert(a@ != b@);
        return false;
    }
    let mut i: usize = 0;
    while i < a_len
        invariant
            i <= a_len,
            a_len == a@.len(),
            a_len == b@.len(),
            forall|j: int| 0 <= j < i ==> a@[j] == b@[j],
        decreases a_len - i,
    {
        if a.get_char(i) != b.get_char(i) {
            return false;
        }
        i += 1;
    }
    proof {
        assert(a@ =~= b@);
    }
    true
}

/// Whether `s` begins with `prefix`, character for character.
pub open spec fn spec_has_prefix(s: Seq<char>, prefix: Seq<char>) -> bool {
    prefix.len() <= s.len() && s.subrange(0, prefix.len() as int) == prefix
}

/// Prefix test on string slices.
pub fn has_prefix(s: &str, prefix: &str) -> (r: bool)
    ensures
        r == spec_has_prefix(s@, prefix@),
{
    let s_len = s.unicode_len();
    let p_len = prefix.unicode_len();
    if p_len > s_len {
        return false;
    }
    let mut i: usize = 0;
    while i < p_len
        invariant
            i <= p_len,
            p_len == prefix@.len(),
            p_len <= s@.len(),
            s_len == s@.len(),
            forall|j: int| 0 <= j < i ==> s@[j] == prefix@[j],
        decreases p_len - i,
    {
        if s.get_char(i) != prefix.get_char(i) {
            assert(s@.subrange(0, p_len as int)[i as int] != prefix@[i as int]);
            return false;
        }
        i += 1;
    }
    proof {
        assert(s@.subrange(0, p_len as int) =~= prefix@);
    }
    true
}

/// The characters of `s` after its first `n`.
pub fn suffix_from(s: &str, n: usize) -> (r: String)
    requires
        n <= s@.len(),
    ensures
        r@ == s@.subrange(n as int, s@.len() as int),
{
    let len = s.unicode_len();
    let rest = s.substring_char(n, len);
    String::from_str(rest)
}

/// `s` without its trailing `/` characters.
pub open spec fn spec_trim_trailing_slashes(s: Seq<char>) -> Seq<char>
    decreases s.len(),
{
    if s.len() > 0 && s.last() == '/' {
        spec_trim_trailing_slashes(s.drop_last())
    } else {
        s
    }
}

/// Normalizes a session identifier: trailing path separators are dropped.
pub fn trim_trailing_slashes(s: &str) -> (r: String)
    ensures
        r@ == spec_trim_trailing_slashes(s@),
{
    let len = s.unicode_len();
    let mut end: usize = len;
    proof {
        assert(s@.subrange(0, len as int) =~= s@);
    }
    while end > 0 && s.get_char(end - 1) == '/'
        invariant
            end <= len,
            len == s@.len(),
            spec_trim_trailing_slashes(s@) == spec_trim_trailing_slashes(s@.subrange(0, end as int)),
        decreases end,
    {
        proof {
            assert(s@.subrange(0, end as int).last() == '/');
            assert(s@.subrange(0, end as int).drop_last() =~= s@.subrange(0, end - 1));
        }
        end -= 1;
    }
    proof {
        if end > 0 {
            assert(s@.subrange(0, end as int).last() == s@[end - 1]);
        }
        assert(spec_trim_trailing_slashes(s@.subrange(0, end as int)) == s@.subrange(0, end as int));
    }
    let rest = s.substring_char(0, end);
    String::from_str(rest)
}

} // verus!
