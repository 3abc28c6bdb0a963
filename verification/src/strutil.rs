//! Verified string and byte helpers: equality, prefix tests, substring
//! search, and whitespace trimming, each pinned to a sequence-level
//! specification.

use vstd::prelude::*;

verus! {

/// The pattern `pat` occurs in `s` starting at index `i`.
pub open spec fn match_at(s: Seq<char>, pat: Seq<char>, i: int) -> bool {
    0 <= i && i + pat.len() <= s.len() && s.subrange(i, i + pat.len() as int) == pat
}

/// The pattern `pat` occurs somewhere in `s`.
pub open spec fn contains_seq(s: Seq<char>, pat: Seq<char>) -> bool {
    exists|i: int| match_at(s, pat, i)
}

/// Index of the first occurrence of `pat` in `s`, if any.
pub open spec fn find_seq(s: Seq<char>, pat: Seq<char>) -> Option<int>
    decreases s.len(),
{
    if pat.len() > s.len() {
        None
    } else if s.subrange(0, pat.len() as int) == pat {
        Some(0)
    } else if s.len() == 0 {
        None
    } else {
        match find_seq(s.skip(1), pat) {
            Some(j) => Some(j + 1),
            None => None,
        }
    }
}

/// `find_seq` returns the first match position: a match where it points,
/// and no match anywhere earlier; `None` means no match at all.
pub proof fn lemma_find_seq(s: Seq<char>, pat: Seq<char>)
    ensures
        match find_seq(s, pat) {
            Some(i) => match_at(s, pat, i) && forall|k: int| 0 <= k < i ==> !match_at(s, pat, k),
            None => forall|k: int| !match_at(s, pat, k),
        },
    decreases s.len(),
{
    if pat.len() > s.len() {
        assert(forall|k: int| !match_at(s, pat, k));
    } else if s.subrange(0, pat.len() as int) == pat {
    } else {
        if s.len() == 0 {
            assert(s.subrange(0, pat.len() as int) =~= pat);
        }
        assert(s.len() > 0);
        lemma_find_seq(s.skip(1), pat);
        assert forall|k: int| 1 <= k && match_at(s, pat, k) implies match_at(
            s.skip(1),
            pat,
            k - 1,
        ) by {
            assert(s.skip(1).subrange(k - 1, k - 1 + pat.len() as int) =~= s.subrange(
                k,
                k + pat.len() as int,
            ));
        }
        assert forall|k: int| match_at(s.skip(1), pat, k) implies match_at(s, pat, k + 1) by {
            assert(s.skip(1).subrange(k, k + pat.len() as int) =~= s.subrange(
                k + 1,
                k + 1 + pat.len() as int,
            ));
        }
    }
}

/// Character-sequence equality of two string slices.
pub fn str_eq(a: &str, b: &str) -> (r: bool)
    ensures
        r == (a@ == b@),
{
    let alen: usize = a.unicode_len();
    let blen: usize = b.unicode_len();
    if alen != blen {
        assert(a@ != b@);
        return false;
    }
    let mut i: usize = 0;
    while i < alen
        invariant
            i <= alen,
            alen == a@.len(),
            alen == b@.len(),
            forall|k: int| 0 <= k < i ==> a@[k] == b@[k],
        decreases alen - i,
    {
        if a.get_char(i) != b.get_char(i) {
            assert(a@ != b@);
            return false;
        }
        i += 1;
    }
    assert(a@ =~= b@);
    true
}

/// Does `pat` occur in `s` at position `i`?
fn is_match_at(s: &str, pat: &str, i: usize, plen: usize) -> (r: bool)
    requires
        plen == pat@.len(),
        i + plen <= s@.len(),
        s@.len() <= usize::MAX,
    ensures
        r == match_at(s@, pat@, i as int),
{
    let mut j: usize = 0;
    while j < plen
        invariant
            j <= plen,
            plen == pat@.len(),
            i + plen <= s@.len(),
            s@.len() <= usize::MAX,
            forall|k: int| 0 <= k < j ==> s@[i + k] == pat@[k],
        decreases plen - j,
    {
        if s.get_char(i + j) != pat.get_char(j) {
            assert(s@.subrange(i as int, i + plen as int)[j as int] != pat@[j as int]);
            return false;
        }
        j += 1;
    }
    assert(s@.subrange(i as int, i + plen as int) =~= pat@);
    true
}

/// First index at which `pat` occurs in `s`.
pub fn find_sub(s: &str, pat: &str) -> (r: Option<usize>)
    ensures
        match r {
            Some(i) => find_seq(s@, pat@) == Some(i as int),
            None => find_seq(s@, pat@) is None,
        },
{
    let slen: usize = s.unicode_len();
    let plen: usize = pat.unicode_len();
    proof {
        lemma_find_seq(s@, pat@);
    }
    if plen > slen {
        return None;
    }
    if plen == 0 {
        assert(s@.subrange(0, 0) =~= pat@);
        return Some(0);
    }
    let mut i: usize = 0;
    while i <= slen - plen
        invariant
            1 <= plen <= slen,
            slen == s@.len(),
            plen == pat@.len(),
            i <= slen - plen + 1,
            forall|k: int| 0 <= k < i ==> !match_at(s@, pat@, k),
        decreases slen - i,
    {
        if is_match_at(s, pat, i, plen) {
            proof {
                lemma_find_seq(s@, pat@);
            }
            return Some(i);
        }
        i += 1;
    }
    assert(forall|k: int| !match_at(s@, pat@, k));
    None
}

/// Does `pat` occur anywhere in `s`?
pub fn contains_sub(s: &str, pat: &str) -> (r: bool)
    ensures
        r == contains_seq(s@, pat@),
{
    proof {
        lemma_find_seq(s@, pat@);
    }
    match find_sub(s, pat) {
        Some(_) => true,
        None => false,
    }
}

/// Does `s` start with `pat`?
pub fn starts_with_str(s: &str, pat: &str) -> (r: bool)
    ensures
        r == (pat@.len() <= s@.len() && s@.take(pat@.len() as int) == pat@),
{
    let slen: usize = s.unicode_len();
    let plen: usize = pat.unicode_len();
    if plen > slen {
        return false;
    }
    is_match_at(s, pat, 0, plen)
}

/// The ASCII whitespace characters that tag trimming strips.
pub open spec fn is_space_char(c: char) -> bool {
    c == ' ' || c == '\t' || c == '\n' || c == '\r'
}

/// `s` without its leading whitespace.
pub open spec fn ltrim_seq(s: Seq<char>) -> Seq<char>
    decreases s.len(),
{
    if s.len() > 0 && is_space_char(s[0]) {
        ltrim_seq(s.skip(1))
    } else {
        s
    }
}

/// `s` without its trailing whitespace.
pub open spec fn rtrim_seq(s: Seq<char>) -> Seq<char>
    decreases s.len(),
{
    if s.len() > 0 && is_space_char(s[s.len() - 1]) {
        rtrim_seq(s.take(s.len() - 1))
    } else {
        s
    }
}

/// `s` without leading or trailing whitespace.
pub open spec fn trim_seq(s: Seq<char>) -> Seq<char> {
    rtrim_seq(ltrim_seq(s))
}

/// Executable whitespace test for one character.
pub fn is_space(c: char) -> (r: bool)
    ensures
        r == is_space_char(c),
{
    c == ' ' || c == '\t' || c == '\n' || c == '\r'
}

/// Copy of `s` with leading and trailing ASCII whitespace removed.
pub fn trim_str(s: &str) -> (r: String)
    ensures
        r@ == trim_seq(s@),
{
    let len: usize = s.unicode_len();
    proof {
        assert(s@.skip(0) =~= s@);
    }
    let mut a: usize = 0;
    while a < len && is_space(s.get_char(a))
        invariant
            a <= len,
            len == s@.len(),
            ltrim_seq(s@) == ltrim_seq(s@.skip(a as int)),
        decreases len - a,
    {
        proof {
            assert(s@.skip(a as int)[0] == s@[a as int]);
            assert(s@.skip(a as int).skip(1) =~= s@.skip(a + 1));
        }
        a += 1;
    }
    proof {
        if a == len {
            assert(s@.skip(a as int) =~= Seq::<char>::empty());
        } else {
            assert(s@.skip(a as int)[0] == s@[a as int]);
        }
        assert(ltrim_seq(s@) == s@.skip(a as int));
    }
    let mut b: usize = len;
    while b > a && is_space(s.get_char(b - 1))
        invariant
            a <= b <= len,
            len == s@.len(),
            ltrim_seq(s@) == s@.skip(a as int),
            rtrim_seq(s@.skip(a as int)) == rtrim_seq(s@.subrange(a as int, b as int)),
        decreases b,
    {
        proof {
            let cur = s@.subrange(a as int, b as int);
            assert(cur[cur.len() - 1] == s@[b - 1]);
            assert(cur.take(cur.len() - 1) =~= s@.subrange(a as int, b - 1));
        }
        b -= 1;
    }
    proof {
        let cur = s@.subrange(a as int, b as int);
        if b == a {
            assert(cur =~= Seq::<char>::empty());
        } else {
            assert(cur[cur.len() - 1] == s@[b - 1]);
        }
        assert(rtrim_seq(cur) == cur);
    }
    let piece = s.substring_char(a, b);
    piece.to_owned()
}

/// Relies on `String::push`: it appends exactly the given character to
/// the end of the string. vstd gives `push` no specification of its own.
#[verifier::external_body]
pub fn push_char(s: &mut String, c: char)
    ensures
        final(s)@ == old(s)@.push(c),
{
    s.push(c);
}

/// The byte pattern `pat` is a prefix of `data`.
pub open spec fn bytes_prefix(data: Seq<u8>, pat: Seq<u8>) -> bool {
    pat.len() <= data.len() && data.take(pat.len() as int) == pat
}

/// Does the byte slice `data` start with `pat`?
pub fn bytes_starts_with(data: &[u8], pat: &[u8]) -> (r: bool)
    ensures
        r == bytes_prefix(data@, pat@),
{
    if pat.len() > data.len() {
        return false;
    }
    let plen: usize = pat.len();
    let mut j: usize = 0;
    while j < plen
        invariant
            j <= plen,
            plen == pat@.len(),
            plen <= data@.len(),
            forall|k: int| 0 <= k < j ==> data@[k] == pat@[k],
        decreases plen - j,
    {
        if data[j] != pat[j] {
            assert(data@.take(plen as int)[j as int] != pat@[j as int]);
            return false;
        }
        j += 1;
    }
    assert(data@.take(plen as int) =~= pat@);
    true
}

} // verus!
