//! Byte-sequence scanning primitives: matching a pattern at a position,
//! substring search, and suffix tests, each proved against a spec over
//! `Seq<u8>`.

use vstd::prelude::*;

verus! {

/// The pattern `pat` occurs in `s` starting at position `i`.
pub open spec fn matches_at(s: Seq<u8>, pat: Seq<u8>, i: int) -> bool {
    0 <= i && i + pat.len() <= s.len() && s.subrange(i, i + pat.len()) == pat
}

/// The pattern `pat` occurs somewhere in `s`.
pub open spec fn contains_seq(s: Seq<u8>, pat: Seq<u8>) -> bool {
    exists|i: int| matches_at(s, pat, i)
}

/// `suffix` is a suffix of `s`.
pub open spec fn ends_with(s: Seq<u8>, suffix: Seq<u8>) -> bool {
    suffix.len() <= s.len() && s.subrange(s.len() - suffix.len(), s.len() as int) == suffix
}

/// Compares `pat` against the bytes of `s` starting at `i`.
pub fn matches_at_exec(s: &[u8], pat: &[u8], i: usize) -> (b: bool)
    requires
        i <= s@.len(),
        pat@.len() <= s@.len() - i,
    ensures
        b == matches_at(s@, pat@, i as int),
{
    let sn: usize = s.len();
    let mut j: usize = 0;
    while j < pat.len()
        invariant
            j <= pat@.len(),
            i + pat@.len() <= s@.len(),
            sn == s@.len(),
            forall|k: int| 0 <= k < j ==> s@[i + k] == pat@[k],
        decreases pat@.len() - j,
    {
        if s[i + j] != pat[j] {
            proof {
                assert(s@.subrange(i as int, i + pat@.len())[j as int] != pat@[j as int]);
            }
            return false;
        }
        j += 1;
    }
    proof {
        assert(s@.subrange(i as int, i + pat@.len()) =~= pat@);
    }
    true
}

/// Searches `s` left to right for an occurrence of `pat`.
pub fn contains_exec(s: &[u8], pat: &[u8]) -> (b: bool)
    ensures
        b == contains_seq(s@, pat@),
{
    if pat.len() > s.len() {
        return false;
    }
    if pat.len() == 0 {
        proof {
            assert(s@.subrange(0, 0) =~= pat@);
            assert(matches_at(s@, pat@, 0));
        }
        return true;
    }
    let end: usize = s.len() - pat.len();
    let mut i: usize = 0;
    loop
        invariant
            i <= end + 1,
            end < usize::MAX,
            end == s@.len() - pat@.len(),
            forall|k: int| 0 <= k < i ==> !matches_at(s@, pat@, k),
        decreases end + 1 - i,
    {
        if i > end {
            return false;
        }
        if matches_at_exec(s, pat, i) {
            return true;
        }
        i += 1;
    }
}

/// Tests whether `s` ends with `suffix`.
pub fn ends_with_exec(s: &[u8], suffix: &[u8]) -> (b: bool)
    ensures
        b == ends_with(s@, suffix@),
{
    if suffix.len() > s.len() {
        return false;
    }
    matches_at_exec(s, suffix, s.len() - suffix.len())
}

/// Appends all of `src` to `dst`.
pub fn push_all(dst: &mut Vec<u8>, src: &[u8])
    ensures
        final(dst)@ == old(dst)@ + src@,
{
    let mut j: usize = 0;
    while j < src.len()
        invariant
            j <= src@.len(),
            dst@ == old(dst)@ + src@.subrange(0, j as int),
        decreases src@.len() - j,
    {
        dst.push(src[j]);
        proof {
            assert(old(dst)@ + src@.subrange(0, j + 1) =~= (old(dst)@ + src@.subrange(0, j as int)).push(
                src@[j as int]));
        }
        j += 1;
    }
    proof {
        assert(src@.subrange(0, src@.len() as int) =~= src@);
    }
}

} // verus!
