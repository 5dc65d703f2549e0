//! Small executable helpers over strings, with exact contracts.

use vstd::prelude::*;
use vstd::string::StrSliceExecFns;

verus! {

/// Whether two string slices spell the same characters.
pub fn str_eq(a: &str, b: &str) -> (r: bool)
    ensures
        r == (a@ == b@),
{
    let n = a.unicode_len();
    let m = b.unicode_len();
    if n != m {
        return false;
    }
    let mut i: usize = 0;
    while i < n
        invariant
            0 <= i <= n,
            n == a@.len(),
            n == b@.len(),
            forall|j: int| 0 <= j < i ==> a@[j] == b@[j],
        decreases n - i,
    {
        if a.get_char(i) != b.get_char(i) {
            return false;
        }
        i += 1;
    }
    proof {
        assert(a@ =~= b@);
    }
    true
}

/// The characters of a string slice, as a vector.
pub fn chars_of(s: &str) -> (v: Vec<char>)
    ensures
        v@ == s@,
{
    let n = s.unicode_len();
    let mut v: Vec<char> = Vec::new();
    let mut i: usize = 0;
    while i < n
        invariant
            0 <= i <= n,
            n == s@.len(),
            v@ =~= s@.take(i as int),
        decreases n - i,
    {
        v.push(s.get_char(i));
        proof {
            assert(v@ =~= s@.take(i + 1));
        }
        i += 1;
    }
    proof {
        assert(s@.take(n as int) =~= s@);
    }
    v
}

/// Whether two character vectors spell the same characters.
pub fn chars_eq(a: &Vec<char>, b: &Vec<char>) -> (r: bool)
    ensures
        r == (a@ == b@),
{
    if a.len() != b.len() {
        return false;
    }
    let mut i: usize = 0;
    while i < a.len()
        invariant
            0 <= i <= a@.len(),
            a@.len() == b@.len(),
            forall|j: int| 0 <= j < i ==> a@[j] == b@[j],
        decreases a@.len() - i,
    {
        if a[i] != b[i] {
            return false;
        }
        i += 1;
    }
    proof {
        assert(a@ =~= b@);
    }
    true
}

/// The length of a wide-character buffer's content: up to its first
/// NUL, or the whole buffer when none occurs.
pub open spec fn spec_nul_len(s: Seq<u16>) -> int
    decreases s.len(),
{
    if s.len() == 0 {
        0
    } else if s[0] == 0 {
        0
    } else {
        1 + spec_nul_len(s.drop_first())
    }
}

/// What `spec_nul_len` measures: the longest NUL-free prefix.
pub proof fn lemma_nul_len(s: Seq<u16>)
    ensures
        0 <= spec_nul_len(s) <= s.len(),
        forall|j: int| 0 <= j < spec_nul_len(s) ==> s[j] != 0,
        spec_nul_len(s) < s.len() ==> s[spec_nul_len(s)] == 0,
    decreases s.len(),
{
    if s.len() > 0 && s[0] != 0 {
        lemma_nul_len(s.drop_first());
        let sd = s.drop_first();
        assert forall|j: int| 0 <= j < spec_nul_len(s) implies s[j] != 0 by {
            if j > 0 {
                assert(sd[j - 1] == s[j]);
                assert(sd[j - 1] != 0);
            }
        }
    }
}

/// The content of a wide-character buffer: its prefix up to the first
/// NUL terminator.
pub fn wide_until_nul(s: &[u16]) -> (v: Vec<u16>)
    ensures
        v@ == s@.take(spec_nul_len(s@)),
{
    proof {
        lemma_nul_len(s@);
    }
    let mut v: Vec<u16> = Vec::new();
    let mut i: usize = 0;
    while i < s.len()
        invariant
            0 <= i <= s@.len(),
            i <= spec_nul_len(s@) <= s@.len(),
            forall|j: int| 0 <= j < spec_nul_len(s@) ==> s@[j] != 0,
            spec_nul_len(s@) < s@.len() ==> s@[spec_nul_len(s@)] == 0,
            v@ =~= s@.take(i as int),
        decreases s@.len() - i,
    {
        if s[i] == 0 {
            proof {
                assert(i == spec_nul_len(s@));
            }
            return v;
        }
        v.push(s[i]);
        proof {
            assert(v@ =~= s@.take(i + 1));
            assert(i + 1 <= spec_nul_len(s@)) by {
                if i + 1 > spec_nul_len(s@) {
                    assert(s@[spec_nul_len(s@)] == 0);
                    assert(s@[i as int] != 0);
                }
            }
        }
        i += 1;
    }
    proof {
        assert(spec_nul_len(s@) == s@.len());
        assert(v@ =~= s@.take(spec_nul_len(s@)));
    }
    v
}

} // verus!
