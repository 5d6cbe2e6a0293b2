//! Byte-level scanning primitives used by the progress-line grammar and
//! the token parsers: character classes, prefix/substring search, and
//! string equality proved down to UTF-8 byte sequences.

use vstd::prelude::*;

verus! {

use vstd::string::StringSliceAdditionalSpecFns;

/// ASCII decimal digit `'0'..='9'`.
pub open spec fn is_digit_byte(b: u8) -> bool {
    48 <= b <= 57
}

/// ASCII whitespace as the progress grammar understands it:
/// space, tab, line feed, vertical tab, form feed, carriage return.
pub open spec fn is_ws_byte(b: u8) -> bool {
    b == 32 || b == 9 || b == 10 || b == 11 || b == 12 || b == 13
}

/// ASCII letter.
pub open spec fn is_alpha_byte(b: u8) -> bool {
    (65 <= b <= 90) || (97 <= b <= 122)
}

/// ASCII word character: letter, digit or underscore.
pub open spec fn is_word_byte(b: u8) -> bool {
    is_alpha_byte(b) || is_digit_byte(b) || b == 95
}

/// Digit or `'.'`, the body of a decimal number token.
pub open spec fn is_digit_or_dot_byte(b: u8) -> bool {
    is_digit_byte(b) || b == 46
}

/// Digit or `':'`, the body of a clock-time token.
pub open spec fn is_digit_or_colon_byte(b: u8) -> bool {
    is_digit_byte(b) || b == 58
}

/// ASCII lower-casing of a single byte; other bytes are unchanged.
pub open spec fn lower_byte(b: u8) -> u8 {
    if 65 <= b <= 90 {
        (b + 32) as u8
    } else {
        b
    }
}

/// First position at or after `i` whose byte fails `p`, or the end of `s`.
pub open spec fn seek(s: Seq<u8>, i: int, p: spec_fn(u8) -> bool) -> int
    decreases s.len() - i,
    when 0 <= i <= s.len()
{
    if i < s.len() && p(s[i]) {
        seek(s, i + 1, p)
    } else {
        i
    }
}

/// A scan that saw `p` hold on everything before `j` and fail at `j`
/// (or reach the end) has found exactly `seek(s, 0, p)`.
pub proof fn lemma_seek_exact(s: Seq<u8>, j: int, p: spec_fn(u8) -> bool)
    requires
        0 <= j <= s.len(),
        forall|k: int| 0 <= k < j ==> p(#[trigger] s[k]),
        j < s.len() ==> !p(s[j]),
    ensures
        seek(s, 0, p) == j,
    decreases j,
{
    lemma_seek_stops(s, 0, j, p);
}

/// As `lemma_seek_exact`, but for a scan that started at `i`.
pub proof fn lemma_seek_stops(s: Seq<u8>, i: int, j: int, p: spec_fn(u8) -> bool)
    requires
        0 <= i <= j <= s.len(),
        forall|k: int| i <= k < j ==> p(#[trigger] s[k]),
        j < s.len() ==> !p(s[j]),
    ensures
        seek(s, i, p) == j,
    decreases j - i,
{
    if i < j {
        lemma_seek_stops(s, i + 1, j, p);
    }
}

/// The pattern `pat` occurs in `s` starting at position `i`.
pub open spec fn matches_at(s: Seq<u8>, pat: Seq<u8>, i: int) -> bool {
    0 <= i && i + pat.len() <= s.len() && s.subrange(i, i + pat.len() as int) == pat
}

/// Position of the first occurrence of `pat` at or after `i`, if any.
pub open spec fn find_from(s: Seq<u8>, pat: Seq<u8>, i: int) -> Option<int>
    decreases s.len() - i,
    when 0 <= i
{
    if i + pat.len() > s.len() {
        None
    } else if s.subrange(i, i + pat.len() as int) == pat {
        Some(i)
    } else if i < s.len() {
        find_from(s, pat, i + 1)
    } else {
        None
    }
}

/// `pat` occurs somewhere in `s`.
pub open spec fn contains_seq(s: Seq<u8>, pat: Seq<u8>) -> bool {
    find_from(s, pat, 0).is_some()
}

/// What `find_from` returns is the first occurrence at or after `i`.
pub proof fn lemma_find_from(s: Seq<u8>, pat: Seq<u8>, i: int)
    requires
        0 <= i,
    ensures
        match find_from(s, pat, i) {
            Some(j) => i <= j && matches_at(s, pat, j) && forall|k: int|
                i <= k < j ==> !matches_at(s, pat, k),
            None => forall|k: int| i <= k ==> !matches_at(s, pat, k),
        },
    decreases s.len() - i,
{
    if i + pat.len() > s.len() {
    } else if s.subrange(i, i + pat.len() as int) == pat {
    } else if i < s.len() {
        lemma_find_from(s, pat, i + 1);
    }
}

/// Position of the last occurrence of byte `b` in `s`, if any.
pub open spec fn last_index_of(s: Seq<u8>, b: u8) -> Option<int>
    decreases s.len(),
{
    if s.len() == 0 {
        None
    } else if s.last() == b {
        Some(s.len() - 1)
    } else {
        last_index_of(s.drop_last(), b)
    }
}

pub proof fn lemma_last_index_of(s: Seq<u8>, b: u8)
    ensures
        match last_index_of(s, b) {
            Some(p) => 0 <= p < s.len() && s[p] == b && forall|j: int|
                p < j < s.len() ==> s[j] != b,
            None => forall|j: int| 0 <= j < s.len() ==> s[j] != b,
        },
    decreases s.len(),
{
    if s.len() > 0 && s.last() != b {
        let pre = s.drop_last();
        lemma_last_index_of(pre, b);
        assert(forall|j: int| 0 <= j < pre.len() ==> pre[j] == s[j]);
        assert(forall|j: int| 0 <= j < s.len() && s[j] == b ==> j < pre.len() && pre[j] == b);
    }
}

/// Interpret an index returned from executable search code as a spec index.
pub open spec fn opt_idx(r: Option<usize>) -> Option<int> {
    match r {
        Some(i) => Some(i as int),
        None => None,
    }
}

/// `pat` stands at position `i` of `hay`, decided byte by byte.
pub fn matches_prefix_at(hay: &[u8], pat: &[u8], i: usize) -> (b: bool)
    requires
        i + pat@.len() <= hay@.len(),
    ensures
        b == matches_at(hay@, pat@, i as int),
{
    let n = hay.len();
    let m = pat.len();
    let mut j: usize = 0;
    while j < m
        invariant
            j <= m,
            n == hay@.len(),
            m == pat@.len(),
            i + m <= n,
            forall|k: int| 0 <= k < j ==> hay@[i + k] == pat@[k],
        decreases m - j,
    {
        if hay[i + j] != pat[j] {
            proof {
                assert(hay@.subrange(i as int, i + m as int)[j as int] == hay@[i + j]);
            }
            return false;
        }
        j += 1;
    }
    proof {
        assert(hay@.subrange(i as int, i + m as int) =~= pat@);
    }
    true
}

/// First occurrence of `pat` in `hay`, scanning left to right.
pub fn find_subslice(hay: &[u8], pat: &[u8]) -> (r: Option<usize>)
    ensures
        opt_idx(r) == find_from(hay@, pat@, 0),
{
    let n = hay.len();
    let m = pat.len();
    if m > n {
        return None;
    }
    if m == 0 {
        proof {
            assert(hay@.subrange(0, 0) =~= pat@);
        }
        return Some(0);
    }
    let bound = n - m;
    let mut i: usize = 0;
    while i <= bound
        invariant
            1 <= m <= n,
            bound == n - m,
            n == hay@.len(),
            m == pat@.len(),
            i <= bound + 1,
            find_from(hay@, pat@, 0) == find_from(hay@, pat@, i as int),
        decreases bound + 1 - i,
    {
        if matches_prefix_at(hay, pat, i) {
            return Some(i);
        }
        i += 1;
    }
    None
}

/// `pat` occurs somewhere in `hay`.
pub fn contains_subslice(hay: &[u8], pat: &[u8]) -> (r: bool)
    ensures
        r == contains_seq(hay@, pat@),
{
    find_subslice(hay, pat).is_some()
}

/// Last occurrence of byte `b` in `s`, scanning right to left.
pub fn rfind_byte(s: &[u8], b: u8) -> (r: Option<usize>)
    ensures
        opt_idx(r) == last_index_of(s@, b),
{
    let mut i = s.len();
    proof {
        assert(s@.take(i as int) =~= s@);
    }
    while i > 0
        invariant
            i <= s@.len(),
            last_index_of(s@, b) == last_index_of(s@.take(i as int), b),
        decreases i,
    {
        proof {
            assert(s@.take(i as int).drop_last() =~= s@.take(i - 1));
            assert(s@.take(i as int).last() == s@[i - 1]);
        }
        if s[i - 1] == b {
            return Some(i - 1);
        }
        i -= 1;
    }
    None
}

/// `pat` occurs in `hay`, stated over the UTF-8 encodings of the two
/// character sequences.
pub open spec fn contains_str(hay: Seq<char>, pat: Seq<char>) -> bool {
    contains_seq(vstd::utf8::encode_utf8(hay), vstd::utf8::encode_utf8(pat))
}

/// `hay` begins with `pat`, stated over the UTF-8 encodings.
pub open spec fn starts_str(hay: Seq<char>, pat: Seq<char>) -> bool {
    matches_at(vstd::utf8::encode_utf8(hay), vstd::utf8::encode_utf8(pat), 0)
}

/// Substring test on string slices.
pub fn str_contains(hay: &str, pat: &str) -> (r: bool)
    ensures
        r == contains_str(hay@, pat@),
{
    contains_subslice(hay.as_bytes(), pat.as_bytes())
}

/// Prefix test on string slices.
pub fn str_starts_with(hay: &str, pat: &str) -> (r: bool)
    ensures
        r == starts_str(hay@, pat@),
{
    let hb = hay.as_bytes();
    let pb = pat.as_bytes();
    if pb.len() > hb.len() {
        return false;
    }
    matches_prefix_at(hb, pb, 0)
}

/// `s` with each ASCII upper-case byte lowered.
pub open spec fn lower_bytes(s: Seq<u8>) -> Seq<u8> {
    s.map_values(|b: u8| lower_byte(b))
}

/// Equality of two character sequences up to ASCII case, stated over
/// their UTF-8 encodings.
pub open spec fn eq_ignore_ascii_case(a: Seq<char>, b: Seq<char>) -> bool {
    lower_bytes(vstd::utf8::encode_utf8(a)) == lower_bytes(vstd::utf8::encode_utf8(b))
}

/// ASCII lower-casing of a single byte.
pub fn ascii_lower(b: u8) -> (r: u8)
    ensures
        r == lower_byte(b),
{
    if 65 <= b && b <= 90 {
        b + 32
    } else {
        b
    }
}

/// Equality of two string slices up to ASCII case.
pub fn str_eq_ignore_ascii_case(a: &str, b: &str) -> (r: bool)
    ensures
        r == eq_ignore_ascii_case(a@, b@),
{
    let ab = a.as_bytes();
    let bb = b.as_bytes();
    let n = ab.len();
    if n != bb.len() {
        return false;
    }
    let mut i: usize = 0;
    while i < n
        invariant
            n == ab@.len() == bb@.len(),
            ab@ == a.spec_bytes(),
            bb@ == b.spec_bytes(),
            i <= n,
            forall|k: int| 0 <= k < i ==> lower_byte(ab@[k]) == lower_byte(bb@[k]),
        decreases n - i,
    {
        if ascii_lower(ab[i]) != ascii_lower(bb[i]) {
            proof {
                let j = i as int;
                assert(lower_bytes(a.spec_bytes())[j] != lower_bytes(b.spec_bytes())[j]);
            }
            return false;
        }
        i += 1;
    }
    proof {
        assert(lower_bytes(a.spec_bytes()) =~= lower_bytes(b.spec_bytes()));
    }
    true
}

/// Content equality of two string slices, decided on their UTF-8 bytes.
pub fn str_eq(a: &str, b: &str) -> (r: bool)
    ensures
        r == (a@ == b@),
{
    proof {
        broadcast use vstd::utf8::encode_utf8_decode_utf8;

    }
    let ab = a.as_bytes();
    let bb = b.as_bytes();
    if ab.len() != bb.len() {
        return false;
    }
    let n = ab.len();
    let mut i: usize = 0;
    while i < n
        invariant
            n == ab@.len() == bb@.len(),
            ab@ == a.spec_bytes(),
            bb@ == b.spec_bytes(),
            i <= n,
            forall|k: int| 0 <= k < i ==> ab@[k] == bb@[k],
        decreases n - i,
    {
        if ab[i] != bb[i] {
            proof {
                assert(a.spec_bytes() != b.spec_bytes());
            }
            return false;
        }
        i += 1;
    }
    proof {
        assert(a.spec_bytes() =~= b.spec_bytes());
        assert(vstd::utf8::decode_utf8(vstd::utf8::encode_utf8(a@)) == vstd::utf8::decode_utf8(
            vstd::utf8::encode_utf8(b@),
        ));
    }
    true
}

} // verus!
