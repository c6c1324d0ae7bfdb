//! ASCII case-insensitive equality and substring search, used for all tag-name
//! comparisons and for the advisory document pre-check.

use vstd::prelude::*;

verus! {

/// Lower-case an ASCII letter; every other character is unchanged.
pub open spec fn lower_char(c: char) -> char {
    if 65 <= c as u32 && c as u32 <= 90 {
        (c as u32 + 32) as char
    } else {
        c
    }
}

/// ASCII-lower-case every character of a sequence.
pub open spec fn lower(s: Seq<char>) -> Seq<char> {
    s.map_values(|c: char| lower_char(c))
}

/// Two names are the same up to ASCII case.
pub open spec fn eq_nocase(a: Seq<char>, b: Seq<char>) -> bool {
    lower(a) == lower(b)
}

/// `pat` occurs somewhere in `s` as a contiguous run, up to ASCII case.
pub open spec fn matches_at(s: Seq<char>, pat: Seq<char>, i: int) -> bool {
    0 <= i && i + pat.len() <= s.len() && eq_nocase(s.subrange(i, i + pat.len()), pat)
}

/// `pat` occurs somewhere in `s`, up to ASCII case.
pub open spec fn contains_nocase(s: Seq<char>, pat: Seq<char>) -> bool {
    exists|i: int| matches_at(s, pat, i)
}

fn lower_char_exec(c: char) -> (r: char)
    ensures
        r == lower_char(c),
{
    let u = c as u32;
    if 65 <= u && u <= 90 {
        ((u as u8) + 32) as char
    } else {
        c
    }
}

/// Compare two strings for equality up to ASCII case.
pub fn str_eq_nocase(a: &str, b: &str) -> (r: bool)
    ensures
        r == eq_nocase(a@, b@),
{
    let alen = a.unicode_len();
    let blen = b.unicode_len();
    if alen != blen {
        assert(lower(a@).len() != lower(b@).len());
        return false;
    }
    let mut i: usize = 0;
    while i < alen
        invariant
            i <= alen,
            alen == a@.len(),
            alen == b@.len(),
            forall|j: int| 0 <= j < i ==> lower_char(a@[j]) == lower_char(b@[j]),
        decreases alen - i,
    {
        let ca = a.get_char(i);
        let cb = b.get_char(i);
        if lower_char_exec(ca) != lower_char_exec(cb) {
            assert(lower(a@)[i as int] != lower(b@)[i as int]);
            return false;
        }
        i += 1;
    }
    assert(lower(a@) =~= lower(b@));
    true
}

fn str_matches_at(s: &str, pat: &str, i: usize, slen: usize, plen: usize) -> (r: bool)
    requires
        slen == s@.len(),
        plen == pat@.len(),
        i + plen <= slen,
    ensures
        r == matches_at(s@, pat@, i as int),
{
    let mut j: usize = 0;
    while j < plen
        invariant
            j <= plen,
            slen == s@.len(),
            plen == pat@.len(),
            i + plen <= slen,
            forall|k: int| 0 <= k < j ==> lower_char(s@[i + k]) == lower_char(pat@[k]),
        decreases plen - j,
    {
        let cs = s.get_char(i + j);
        let cp = pat.get_char(j);
        if lower_char_exec(cs) != lower_char_exec(cp) {
            assert(lower(s@.subrange(i as int, i + plen))[j as int] != lower(pat@)[j as int]);
            return false;
        }
        j += 1;
    }
    assert(lower(s@.subrange(i as int, i + plen)) =~= lower(pat@)) by {
        assert(forall|k: int| 0 <= k < plen ==>
            #[trigger] lower(s@.subrange(i as int, i + plen))[k] == lower_char(s@[i + k]));
    }
    true
}

/// Search `s` for an occurrence of `pat`, ignoring ASCII case.
pub fn str_contains_nocase(s: &str, pat: &str) -> (r: bool)
    ensures
        r == contains_nocase(s@, pat@),
{
    let slen = s.unicode_len();
    let plen = pat.unicode_len();
    if plen > slen {
        assert(forall|i: int| !matches_at(s@, pat@, i));
        return false;
    }
    if plen == 0 {
        assert(s@.subrange(0, 0) =~= pat@);
        assert(matches_at(s@, pat@, 0));
        return true;
    }
    let mut i: usize = 0;
    while i <= slen - plen
        invariant
            plen >= 1,
            plen <= slen,
            slen == s@.len(),
            plen == pat@.len(),
            i <= slen - plen + 1,
            forall|k: int| 0 <= k < i ==> !matches_at(s@, pat@, k),
        decreases slen - plen + 1 - i,
    {
        if str_matches_at(s, pat, i, slen, plen) {
            return true;
        }
        i += 1;
    }
    assert(forall|k: int| !matches_at(s@, pat@, k));
    false
}

} // verus!
