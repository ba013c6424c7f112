//! Verified helpers for comparing strings by their character sequences.

use vstd::prelude::*;

verus! {

/// `suffix` is a suffix of `s`, character-wise.
pub open spec fn ends_with_spec(s: Seq<char>, suffix: Seq<char>) -> bool {
    suffix.len() <= s.len() && s.subrange(s.len() - suffix.len(), s.len() as int) == suffix
}

/// Character-wise equality of two string slices.
pub fn str_eq(a: &str, b: &str) -> (r: bool)
    ensures
        r == (a@ == b@),
{
    let a_len = a.unicode_len();
    let b_len = b.unicode_len();
    if a_len != b_len {
        assert(a@ != b@);
        return false;
    }
    let mut i: usize = 0;
    while i < a_len
        invariant
            i <= a_len,
            a_len == a@.len(),
            a_len == b@.len(),
            forall|j: int| 0 <= j < i ==> a@[j] == b@[j],
        decreases a_len - i,
    {
        if a.get_char(i) != b.get_char(i) {
            assert(a@[i as int] != b@[i as int]);
            return false;
        }
        i += 1;
    }
    assert(a@ =~= b@);
    true
}

/// `s` ends with `suffix`, character-wise.
pub fn str_ends_with(s: &str, suffix: &str) -> (r: bool)
    ensures
        r == ends_with_spec(s@, suffix@),
{
    let s_len = s.unicode_len();
    let suf_len = suffix.unicode_len();
    if suf_len > s_len {
        return false;
    }
    let start: usize = s_len - suf_len;
    let mut i: usize = 0;
    while i < suf_len
        invariant
            i <= suf_len,
            suf_len <= s_len,
            start == s_len - suf_len,
            s_len == s@.len(),
            suf_len == suffix@.len(),
            forall|j: int| 0 <= j < i ==> s@[start + j] == suffix@[j],
        decreases suf_len - i,
    {
        if s.get_char(start + i) != suffix.get_char(i) {
            assert(s@[start + i] != suffix@[i as int]);
            assert(!ends_with_spec(s@, suffix@)) by {
                if ends_with_spec(s@, suffix@) {
                    assert(s@.subrange(s@.len() - suffix@.len(), s@.len() as int)[i as int]
                        == suffix@[i as int]);
                }
            }
            return false;
        }
        i += 1;
    }
    assert(s@.subrange(s@.len() - suffix@.len(), s@.len() as int) =~= suffix@);
    true
}

} // verus!
