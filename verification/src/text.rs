//! Character-level text utilities: equality, substring search from the
//! front and from the back, and extraction of the first line of a string.
//!
//! All specifications are over `Seq<char>`, the view of `&str` and `String`.

use vstd::prelude::*;

verus! {

/// `pat` occurs in `s` starting at character index `i`.
pub open spec fn occurs_at(s: Seq<char>, pat: Seq<char>, i: int) -> bool {
    0 <= i && i + pat.len() <= s.len() && s.subrange(i, i + pat.len() as int) == pat
}

/// `pat` occurs somewhere in `s`.
pub open spec fn occurs(s: Seq<char>, pat: Seq<char>) -> bool {
    exists|i: int| occurs_at(s, pat, i)
}

/// The greatest index at which `pat` occurs in `s`; meaningful only when
/// `occurs(s, pat)` holds.
pub open spec fn last_occurrence(s: Seq<char>, pat: Seq<char>) -> int {
    choose|i: int|
        occurs_at(s, pat, i) && (forall|j: int| j > i ==> !occurs_at(s, pat, j))
}

/// An occurrence that no later index repeats is the last occurrence.
pub proof fn lemma_last_occurrence_is(s: Seq<char>, pat: Seq<char>, i: int)
    requires
        occurs_at(s, pat, i),
        forall|j: int| j > i ==> !occurs_at(s, pat, j),
    ensures
        occurs(s, pat),
        last_occurrence(s, pat) == i,
{
    assert(occurs_at(s, pat, i));
    let k = last_occurrence(s, pat);
    assert(occurs_at(s, pat, k) && (forall|j: int| j > k ==> !occurs_at(s, pat, j)));
    if k < i {
        assert(!occurs_at(s, pat, i));
    }
    if k > i {
        assert(!occurs_at(s, pat, k));
    }
}

/// Whether `pat` matches the characters of `s` beginning at index `i`.
pub fn match_at(s: &str, pat: &str, i: usize) -> (b: bool)
    requires
        i + pat@.len() <= s@.len(),
    ensures
        b == occurs_at(s@, pat@, i as int),
{
    let slen = s.unicode_len();
    let plen = pat.unicode_len();
    let mut k: usize = 0;
    while k < plen
        invariant
            slen == s@.len(),
            i + plen <= slen,
            plen == pat@.len(),
            0 <= k <= plen,
            forall|t: int| 0 <= t < k ==> s@[i + t] == pat@[t],
        decreases plen - k,
    {
        if s.get_char(i + k) != pat.get_char(k) {
            assert(!occurs_at(s@, pat@, i as int)) by {
                assert(s@.subrange(i as int, i + pat@.len() as int) == pat@ ==> s@[i + k]
                    == pat@[k as int]);
            }
            return false;
        }
        k = k + 1;
    }
    assert(s@.subrange(i as int, i + pat@.len() as int) =~= pat@);
    true
}

/// Whether `pat` occurs anywhere in `s`.
pub fn occurs_str(s: &str, pat: &str) -> (b: bool)
    ensures
        b == occurs(s@, pat@),
{
    let slen = s.unicode_len();
    let plen = pat.unicode_len();
    if plen > slen {
        assert(forall|i: int| !occurs_at(s@, pat@, i));
        return false;
    }
    if plen == 0 {
        assert(s@.subrange(0, 0) =~= pat@);
        assert(occurs_at(s@, pat@, 0));
        return true;
    }
    let mut i: usize = 0;
    while i <= slen - plen
        invariant
            slen == s@.len(),
            plen == pat@.len(),
            0 < plen <= slen,
            0 <= i <= slen - plen + 1,
            forall|j: int| 0 <= j < i ==> !occurs_at(s@, pat@, j),
        decreases slen - plen + 1 - i,
    {
        if match_at(s, pat, i) {
            assert(occurs_at(s@, pat@, i as int));
            return true;
        }
        i = i + 1;
    }
    assert(forall|j: int| !occurs_at(s@, pat@, j));
    false
}

/// The greatest index at which `pat` occurs in `s`, or `None` when it
/// does not occur at all.
pub fn rfind_str(s: &str, pat: &str) -> (r: Option<usize>)
    ensures
        match r {
            Some(i) => occurs_at(s@, pat@, i as int) && last_occurrence(s@, pat@) == i as int,
            None => !occurs(s@, pat@),
        },
{
    let slen = s.unicode_len();
    let plen = pat.unicode_len();
    if plen > slen {
        assert(forall|i: int| !occurs_at(s@, pat@, i));
        return None;
    }
    if plen == 0 {
        assert(s@.subrange(slen as int, slen as int) =~= pat@);
        assert(occurs_at(s@, pat@, slen as int));
        proof {
            lemma_last_occurrence_is(s@, pat@, slen as int);
        }
        return Some(slen);
    }
    let mut i: usize = slen - plen + 1;
    while i > 0
        invariant
            slen == s@.len(),
            plen == pat@.len(),
            0 < plen <= slen,
            0 <= i <= slen - plen + 1,
            forall|j: int| j >= i ==> !occurs_at(s@, pat@, j),
        decreases i,
    {
        i = i - 1;
        if match_at(s, pat, i) {
            proof {
                lemma_last_occurrence_is(s@, pat@, i as int);
            }
            return Some(i);
        }
    }
    assert(forall|j: int| !occurs_at(s@, pat@, j));
    None
}

/// Character-for-character equality of two string slices.
pub fn eq_str(a: &str, b: &str) -> (r: bool)
    ensures
        r == (a@ == b@),
{
    let alen = a.unicode_len();
    let blen = b.unicode_len();
    if alen != blen {
        return false;
    }
    let m = match_at(a, b, 0);
    proof {
        if m {
            assert(a@.subrange(0, a@.len() as int) =~= a@);
        } else {
            assert(a@ == b@ ==> a@.subrange(0, b@.len() as int) == b@);
        }
    }
    m
}

/// Index of the first `'\n'` in `s`, taken as `s.len()` when there is none.
pub open spec fn line_end_at(s: Seq<char>, i: int) -> bool {
    0 <= i <= s.len() && (forall|k: int| 0 <= k < i ==> s[k] != '\n') && (i == s.len() || s[i]
        == '\n')
}

/// The index described by `line_end_at`, which is unique.
pub open spec fn line_end(s: Seq<char>) -> int {
    choose|i: int| line_end_at(s, i)
}

/// Two indices both satisfying `line_end_at` coincide.
pub proof fn lemma_line_end_is(s: Seq<char>, i: int)
    requires
        line_end_at(s, i),
    ensures
        line_end(s) == i,
{
    assert(line_end_at(s, i));
    let k = line_end(s);
    assert(line_end_at(s, k));
    if k < i {
        assert(s[k] != '\n');
    }
    if i < k {
        assert(s[i] != '\n');
    }
}

/// The first line of `s`, as `str::lines` yields it: the characters up
/// to the first `'\n'` (or all of `s` when there is none), with one
/// trailing `'\r'` stripped when a `'\n'` was found.
pub open spec fn spec_first_line(s: Seq<char>) -> Seq<char> {
    let e = line_end(s);
    let raw = s.subrange(0, e);
    if e < s.len() && raw.len() > 0 && raw.last() == '\r' {
        raw.drop_last()
    } else {
        raw
    }
}

/// The first line of `s`, as a fresh string.
pub fn first_line(s: &str) -> (r: String)
    ensures
        r@ == spec_first_line(s@),
{
    let slen = s.unicode_len();
    let mut e: usize = 0;
    while e < slen && s.get_char(e) != '\n'
        invariant
            slen == s@.len(),
            0 <= e <= slen,
            forall|k: int| 0 <= k < e ==> s@[k] != '\n',
        decreases slen - e,
    {
        e = e + 1;
    }
    proof {
        lemma_line_end_is(s@, e as int);
    }
    let end = if e < slen && e > 0 && s.get_char(e - 1) == '\r' {
        e - 1
    } else {
        e
    };
    proof {
        let raw = s@.subrange(0, e as int);
        if e < slen && e > 0 && s@[e - 1] == '\r' {
            assert(raw.len() > 0 && raw.last() == '\r');
            assert(raw.drop_last() =~= s@.subrange(0, end as int));
        } else {
            if e > 0 {
                assert(raw.last() == s@[e - 1]);
            }
        }
    }
    let line = s.substring_char(0, end);
    String::from_str(line)
}

} // verus!
