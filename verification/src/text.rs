//! Character-level string utilities: equality, substring containment, and
//! the colour-code check used when groups are created.

use vstd::prelude::*;

verus! {

/// Whether the needle `n` occurs in `s` as a contiguous run starting at `i`.
pub open spec fn occurs_at(s: Seq<char>, n: Seq<char>, i: int) -> bool {
    0 <= i && i + n.len() <= s.len() && s.subrange(i, i + n.len() as int) == n
}

/// Whether the needle `n` occurs anywhere in `s` as a contiguous run.
pub open spec fn contains_seq(s: Seq<char>, n: Seq<char>) -> bool {
    exists|i: int| occurs_at(s, n, i)
}

/// Character-for-character string equality.
pub fn str_eq(a: &str, b: &str) -> (r: bool)
    ensures
        r == (a@ == b@),
{
    let an: usize = a.unicode_len();
    let bn: usize = b.unicode_len();
    if an != bn {
        assert(a@ != b@) by {
            assert(a@.len() != b@.len());
        }
        return false;
    }
    let mut i: usize = 0;
    while i < an
        invariant
            an == a@.len(),
            an == b@.len(),
            0 <= i <= an,
            forall|j: int| 0 <= j < i ==> a@[j] == b@[j],
        decreases an - i,
    {
        if a.get_char(i) != b.get_char(i) {
            assert(a@[i as int] != b@[i as int]);
            return false;
        }
        i += 1;
    }
    assert(a@ =~= b@);
    true
}

/// Whether `needle` occurs in `haystack` as a contiguous run of characters.
pub fn contains_str(haystack: &str, needle: &str) -> (r: bool)
    ensures
        r == contains_seq(haystack@, needle@),
{
    let hn: usize = haystack.unicode_len();
    let nn: usize = needle.unicode_len();
    if nn > hn {
        return false;
    }
    if nn == 0 {
        assert(occurs_at(haystack@, needle@, 0)) by {
            assert(haystack@.subrange(0, 0) =~= needle@);
        }
        return true;
    }
    let mut start: usize = 0;
    while start <= hn - nn
        invariant
            hn == haystack@.len(),
            nn == needle@.len(),
            1 <= nn <= hn,
            0 <= start <= hn - nn + 1,
            forall|k: int| 0 <= k < start ==> !occurs_at(haystack@, needle@, k),
        decreases hn - nn + 1 - start,
    {
        let mut j: usize = 0;
        let mut matched: bool = true;
        while j < nn
            invariant
                hn == haystack@.len(),
                nn == needle@.len(),
                0 <= start <= hn - nn,
                0 <= j <= nn,
                matched ==> forall|k: int|
                    0 <= k < j ==> haystack@[start + k] == needle@[k],
                !matched ==> !occurs_at(haystack@, needle@, start as int),
            decreases nn - j,
        {
            if matched && haystack.get_char(start + j) != needle.get_char(j) {
                assert(haystack@[start + j as int] != needle@[j as int]);
                assert(!occurs_at(haystack@, needle@, start as int)) by {
                    if occurs_at(haystack@, needle@, start as int) {
                        assert(haystack@.subrange(
                            start as int,
                            start + nn as int,
                        )[j as int] == needle@[j as int]);
                    }
                }
                matched = false;
            }
            j += 1;
        }
        if matched {
            assert(occurs_at(haystack@, needle@, start as int)) by {
                assert(haystack@.subrange(start as int, start + nn as int) =~= needle@);
            }
            return true;
        }
        start += 1;
    }
    assert(!contains_seq(haystack@, needle@)) by {
        if contains_seq(haystack@, needle@) {
            let w = choose|i: int| occurs_at(haystack@, needle@, i);
            assert(0 <= w < start);
        }
    }
    false
}

/// Whether `c` is one of the characters `0`..`9`, `a`..`f`, `A`..`F`.
pub open spec fn is_hex_digit(c: char) -> bool {
    (48 <= c as u32 <= 57) || (97 <= c as u32 <= 102) || (65 <= c as u32 <= 70)
}

/// A valid colour code: `#` followed by exactly six hexadecimal digits.
pub open spec fn spec_valid_colour(s: Seq<char>) -> bool {
    &&& s.len() == 7
    &&& s[0] == '#'
    &&& forall|i: int| 1 <= i < 7 ==> is_hex_digit(#[trigger] s[i])
}

/// Checks a group colour code.
pub fn is_valid_colour(s: &str) -> (r: bool)
    ensures
        r == spec_valid_colour(s@),
{
    if s.unicode_len() != 7 {
        return false;
    }
    if s.get_char(0) != '#' {
        return false;
    }
    let mut i: usize = 1;
    while i < 7
        invariant
            s@.len() == 7,
            s@[0] == '#',
            1 <= i <= 7,
            forall|j: int| 1 <= j < i ==> is_hex_digit(#[trigger] s@[j]),
        decreases 7 - i,
    {
        let u: u32 = s.get_char(i) as u32;
        if !((48 <= u && u <= 57) || (97 <= u && u <= 102) || (65 <= u && u <= 70)) {
            return false;
        }
        i += 1;
    }
    true
}

/// Compares a submitted derived key against the stored one, byte for byte
/// and in full: the scan never exits early on a mismatch, so its duration
/// does not depend on the length of the matching prefix.
pub fn keys_match(submitted: &Vec<u8>, stored: &Vec<u8>) -> (r: bool)
    ensures
        r == (submitted@ == stored@),
{
    if submitted.len() != stored.len() {
        assert(submitted@ != stored@);
        return false;
    }
    let mut differs: bool = false;
    let mut i: usize = 0;
    while i < submitted.len()
        invariant
            submitted@.len() == stored@.len(),
            0 <= i <= submitted@.len(),
            differs == exists|j: int| 0 <= j < i && submitted@[j] != stored@[j],
        decreases submitted@.len() - i,
    {
        if submitted[i] != stored[i] {
            differs = true;
        }
        i += 1;
    }
    if differs {
        let ghost w = choose|j: int| 0 <= j < submitted@.len() && submitted@[j] != stored@[j];
        assert(submitted@ != stored@);
        false
    } else {
        assert(submitted@ =~= stored@);
        true
    }
}

} // verus!
