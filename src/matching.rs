//! Contiguous sub-sequence matching over token sequences.

use vstd::prelude::*;

verus! {

/// The character sequences of a sequence of strings.
pub open spec fn strs(v: Seq<String>) -> Seq<Seq<char>> {
    v.map_values(|s: String| s@)
}

/// `needle` occurs in `haystack` starting at offset `i`.
pub open spec fn occurs_at(haystack: Seq<Seq<char>>, needle: Seq<Seq<char>>, i: int) -> bool {
    &&& 0 <= i
    &&& i + needle.len() <= haystack.len()
    &&& haystack.subrange(i, i + needle.len()) == needle
}

/// `needle` is empty or occurs contiguously somewhere in `haystack`.
pub open spec fn contains_seq(haystack: Seq<Seq<char>>, needle: Seq<Seq<char>>) -> bool {
    needle.len() == 0 || exists|i: int| occurs_at(haystack, needle, i)
}

fn occurs_at_exec(haystack: &[String], needle: &[String], i: usize) -> (r: bool)
    requires
        i < haystack@.len(),
    ensures
        r == occurs_at(strs(haystack@), strs(needle@), i as int),
{
    let len: usize = haystack.len();
    if needle.len() > len - i {
        return false;
    }
    let mut j: usize = 0;
    while j < needle.len()
        invariant
            len == haystack@.len(),
            i + needle@.len() <= haystack@.len(),
            j <= needle@.len(),
            forall|m: int| 0 <= m < j ==> haystack@[i + m]@ == needle@[m]@,
        decreases needle.len() - j,
    {
        if haystack[i + j] != needle[j] {
            assert(strs(haystack@).subrange(i as int, i + needle@.len())[j as int]
                != strs(needle@)[j as int]);
            return false;
        }
        j += 1;
    }
    assert(strs(haystack@).subrange(i as int, i + needle@.len()) =~= strs(needle@));
    true
}

/// Checks whether `needle` occurs as a contiguous run of `haystack`; an empty
/// needle occurs everywhere.
pub fn includes_sub_vec(haystack: &[String], needle: &[String]) -> (r: bool)
    ensures
        r == contains_seq(strs(haystack@), strs(needle@)),
{
    if needle.len() == 0 {
        return true;
    }
    let mut i: usize = 0;
    while i < haystack.len()
        invariant
            i <= haystack@.len(),
            needle@.len() > 0,
            forall|k: int| 0 <= k < i ==> !occurs_at(strs(haystack@), strs(needle@), k),
        decreases haystack.len() - i,
    {
        if occurs_at_exec(haystack, needle, i) {
            return true;
        }
        i += 1;
    }
    assert forall|k: int| !occurs_at(strs(haystack@), strs(needle@), k) by {
        if k >= i {
            assert(k + needle@.len() > haystack@.len());
        }
    }
    false
}

} // verus!
