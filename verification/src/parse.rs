//! Parsers for the micro-syntax inside progress lines: size tokens such
//! as `"10.15GiB"`, speed tokens such as `"49.23MiB/s"`, and clock-style
//! time-remaining tokens such as `"03:26"` or `"01:03:26"`.
//!
//! A malformed token never fails the pipeline: it parses to zero.

use vstd::prelude::*;

use crate::text::{
    is_alpha_byte, is_digit_byte, is_digit_or_dot_byte, is_ws_byte, lemma_seek_exact, lower_byte,
    seek,
};

verus! {

use vstd::string::StringSliceAdditionalSpecFns;

/// Numeric value of the digits of `s`, most significant first; bytes
/// that are not digits contribute nothing and are skipped.
pub open spec fn num_mantissa(s: Seq<u8>) -> nat
    decreases s.len(),
{
    if s.len() == 0 {
        0
    } else if is_digit_byte(s.last()) {
        num_mantissa(s.drop_last()) * 10 + (s.last() - 48) as nat
    } else {
        num_mantissa(s.drop_last())
    }
}

pub open spec fn count_dots(s: Seq<u8>) -> nat
    decreases s.len(),
{
    if s.len() == 0 {
        0
    } else {
        count_dots(s.drop_last()) + if s.last() == 46 {
            1nat
        } else {
            0nat
        }
    }
}

pub open spec fn count_digits(s: Seq<u8>) -> nat
    decreases s.len(),
{
    if s.len() == 0 {
        0
    } else {
        count_digits(s.drop_last()) + if is_digit_byte(s.last()) {
            1nat
        } else {
            0nat
        }
    }
}

pub open spec fn all_digits(s: Seq<u8>) -> bool {
    forall|i: int| 0 <= i < s.len() ==> is_digit_byte(#[trigger] s[i])
}

pub open spec fn all_digit_or_dot(s: Seq<u8>) -> bool {
    forall|i: int| 0 <= i < s.len() ==> is_digit_or_dot_byte(#[trigger] s[i])
}

/// The shape a decimal number token must have: at least one digit,
/// at most one decimal point, nothing else.
pub open spec fn number_ok(num: Seq<u8>) -> bool {
    num.len() > 0 && all_digit_or_dot(num) && count_dots(num) <= 1 && count_digits(num) >= 1
}

/// How many bytes follow the first decimal point (the fractional digits,
/// when the token is well shaped).
pub open spec fn frac_len(num: Seq<u8>) -> nat {
    let d = seek(num, 0, |b: u8| is_digit_byte(b));
    if d < num.len() {
        (num.len() - d - 1) as nat
    } else {
        0
    }
}

pub open spec fn pow10(n: nat) -> nat
    decreases n,
{
    if n == 0 {
        1
    } else {
        10 * pow10((n - 1) as nat)
    }
}

/// Multiplier of a size unit, matched case-insensitively; decimal and
/// binary prefixes both use 1024-based multipliers, and an unknown unit
/// counts the number part as plain bytes.
pub open spec fn unit_multiplier(u: Seq<u8>) -> u64 {
    if u.len() == 1 && lower_byte(u[0]) == 98 {
        1
    } else if u.len() == 2 && lower_byte(u[0]) == 107 && lower_byte(u[1]) == 98 {
        1024
    } else if u.len() == 2 && lower_byte(u[0]) == 109 && lower_byte(u[1]) == 98 {
        1048576
    } else if u.len() == 2 && lower_byte(u[0]) == 103 && lower_byte(u[1]) == 98 {
        1073741824
    } else if u.len() == 3 && lower_byte(u[0]) == 107 && lower_byte(u[1]) == 105 && lower_byte(
        u[2],
    ) == 98 {
        1024
    } else if u.len() == 3 && lower_byte(u[0]) == 109 && lower_byte(u[1]) == 105 && lower_byte(
        u[2],
    ) == 98 {
        1048576
    } else if u.len() == 3 && lower_byte(u[0]) == 103 && lower_byte(u[1]) == 105 && lower_byte(
        u[2],
    ) == 98 {
        1073741824
    } else {
        1
    }
}

/// Index just past the trailing ASCII whitespace of `s[..j]`.
pub open spec fn trim_back(s: Seq<u8>, j: int) -> int
    decreases j,
    when 0 <= j <= s.len()
{
    if j > 0 && is_ws_byte(s[j - 1]) {
        trim_back(s, j - 1)
    } else {
        j
    }
}

/// `s` without leading and trailing ASCII whitespace.
pub open spec fn trimmed(s: Seq<u8>) -> Seq<u8> {
    let lo = seek(s, 0, |b: u8| is_ws_byte(b));
    let hi = trim_back(s, s.len() as int);
    if lo <= hi {
        s.subrange(lo, hi)
    } else {
        Seq::empty()
    }
}

/// `mantissa / 10^frac` scaled by the unit multiplier, rounded down and
/// saturating at `u64::MAX`.
pub open spec fn scaled_size(m: nat, mult: nat, f: nat) -> u64 {
    let v = (m * mult) / pow10(f);
    if v > u64::MAX {
        u64::MAX
    } else {
        v as u64
    }
}

/// Value in bytes of an already-trimmed size token: the decimal number
/// before the first ASCII letter, scaled by the unit that starts there.
/// Tokens without a letter, with a malformed number, or with a mantissa
/// beyond `u64::MAX` parse to zero.
pub open spec fn size_value(t: Seq<u8>) -> u64 {
    let p = seek(t, 0, |b: u8| !is_alpha_byte(b));
    if p == t.len() {
        0
    } else {
        let num = t.subrange(0, p);
        let unit = t.subrange(p, t.len() as int);
        if !number_ok(num) {
            0
        } else if num_mantissa(num) > u64::MAX {
            0
        } else {
            scaled_size(num_mantissa(num), unit_multiplier(unit) as nat, frac_len(num))
        }
    }
}

/// What `parse_size_to_bytes` returns on a string with these bytes.
pub open spec fn parse_size_spec(raw: Seq<u8>) -> u64 {
    size_value(trimmed(raw))
}

/// `s` with every trailing `"/s"` removed.
pub open spec fn strip_speed_suffix(s: Seq<u8>) -> Seq<u8>
    decreases s.len(),
{
    if s.len() >= 2 && s[s.len() - 2] == 47 && s[s.len() - 1] == 115 {
        strip_speed_suffix(s.take(s.len() - 2))
    } else {
        s
    }
}

/// What `parse_speed_to_bytes_per_sec` returns on a string with these bytes.
pub open spec fn parse_speed_spec(raw: Seq<u8>) -> u64 {
    parse_size_spec(strip_speed_suffix(trimmed(raw)))
}

pub open spec fn sat_u32(n: nat) -> u32 {
    if n > u32::MAX {
        u32::MAX
    } else {
        n as u32
    }
}

/// Value of one clock field: its digits, or zero when the field is
/// empty, contains a non-digit, or overflows `u32`.
pub open spec fn clock_part(p: Seq<u8>) -> nat {
    if p.len() > 0 && all_digits(p) && num_mantissa(p) <= u32::MAX {
        num_mantissa(p)
    } else {
        0
    }
}

/// What `parse_eta_to_seconds` returns on a string with these bytes:
/// `MM:SS` and `HH:MM:SS` count seconds; any other number of fields is
/// zero.
pub open spec fn parse_eta_spec(s: Seq<u8>) -> u32 {
    let c1 = seek(s, 0, |b: u8| b != 58);
    if c1 == s.len() {
        0
    } else {
        let c2 = seek(s, c1 + 1, |b: u8| b != 58);
        if c2 == s.len() {
            sat_u32(
                clock_part(s.subrange(0, c1)) * 60 + clock_part(s.subrange(c1 + 1, s.len() as int)),
            )
        } else {
            let c3 = seek(s, c2 + 1, |b: u8| b != 58);
            if c3 == s.len() {
                sat_u32(
                    clock_part(s.subrange(0, c1)) * 3600 + clock_part(s.subrange(c1 + 1, c2)) * 60
                        + clock_part(s.subrange(c2 + 1, s.len() as int)),
                )
            } else {
                0
            }
        }
    }
}

/// Dropping a suffix never increases the mantissa.
pub proof fn lemma_num_mantissa_prefix(s: Seq<u8>, j: int)
    requires
        0 <= j <= s.len(),
    ensures
        num_mantissa(s.take(j)) <= num_mantissa(s),
    decreases s.len(),
{
    if j < s.len() {
        lemma_num_mantissa_prefix(s.drop_last(), j);
        assert(s.drop_last().take(j) =~= s.take(j));
    } else {
        assert(s.take(j) =~= s);
    }
}

/// Dropping a suffix never increases the dot count.
proof fn lemma_count_dots_prefix(s: Seq<u8>, j: int)
    requires
        0 <= j <= s.len(),
    ensures
        count_dots(s.take(j)) <= count_dots(s),
    decreases s.len(),
{
    if j < s.len() {
        lemma_count_dots_prefix(s.drop_last(), j);
        assert(s.drop_last().take(j) =~= s.take(j));
    } else {
        assert(s.take(j) =~= s);
    }
}

/// Concrete values of the two powers of ten that bound the executable
/// arithmetic: `10^38` fits in `u128`, and `10^39` exceeds any product
/// of a `u64` mantissa and a unit multiplier.
proof fn lemma_pow10_landmarks()
    ensures
        pow10(38) == 100000000000000000000000000000000000000,
        pow10(39) == 1000000000000000000000000000000000000000,
{
    reveal_with_fuel(pow10, 40);
}

proof fn lemma_pow10_pos(n: nat)
    ensures
        pow10(n) >= 1,
    decreases n,
{
    if n > 0 {
        lemma_pow10_pos((n - 1) as nat);
    }
}

proof fn lemma_pow10_mono(a: nat, b: nat)
    requires
        a <= b,
    ensures
        0 < pow10(a) <= pow10(b),
    decreases b,
{
    lemma_pow10_pos(a);
    if a < b {
        lemma_pow10_mono(a, (b - 1) as nat);
    }
}

/// First position at or after `i` that is not ASCII whitespace.
pub open spec fn seek_ws(s: Seq<u8>, i: int) -> int {
    seek(s, i, |b: u8| is_ws_byte(b))
}

/// First position at or after `i` that is not an ASCII digit.
pub open spec fn seek_digits(s: Seq<u8>, i: int) -> int {
    seek(s, i, |b: u8| is_digit_byte(b))
}

/// Advance `i` past ASCII whitespace.
pub fn scan_ws(s: &[u8], from: usize) -> (r: usize)
    requires
        from <= s@.len(),
    ensures
        r == seek(s@, from as int, |b: u8| is_ws_byte(b)),
        r == seek_ws(s@, from as int),
        from <= r <= s@.len(),
{
    let n = s.len();
    let mut i = from;
    while i < n && (s[i] == 32 || s[i] == 9 || s[i] == 10 || s[i] == 11 || s[i] == 12 || s[i] == 13)
        invariant
            from <= i <= n,
            n == s@.len(),
            forall|k: int| from <= k < i ==> is_ws_byte(#[trigger] s@[k]),
        decreases n - i,
    {
        i += 1;
    }
    proof {
        crate::text::lemma_seek_stops(s@, from as int, i as int, |b: u8| is_ws_byte(b));
    }
    i
}

/// Advance `i` past ASCII digits.
pub fn scan_digits(s: &[u8], from: usize) -> (r: usize)
    requires
        from <= s@.len(),
    ensures
        r == seek(s@, from as int, |b: u8| is_digit_byte(b)),
        r == seek_digits(s@, from as int),
        from <= r <= s@.len(),
{
    let n = s.len();
    let mut i = from;
    while i < n && 48 <= s[i] && s[i] <= 57
        invariant
            from <= i <= n,
            n == s@.len(),
            forall|k: int| from <= k < i ==> is_digit_byte(#[trigger] s@[k]),
        decreases n - i,
    {
        i += 1;
    }
    proof {
        crate::text::lemma_seek_stops(s@, from as int, i as int, |b: u8| is_digit_byte(b));
    }
    i
}

/// Advance `i` to the first ASCII letter.
pub fn scan_to_alpha(s: &[u8], from: usize) -> (r: usize)
    requires
        from <= s@.len(),
    ensures
        r == seek(s@, from as int, |b: u8| !is_alpha_byte(b)),
        from <= r <= s@.len(),
{
    let n = s.len();
    let mut i = from;
    while i < n && !((65 <= s[i] && s[i] <= 90) || (97 <= s[i] && s[i] <= 122))
        invariant
            from <= i <= n,
            n == s@.len(),
            forall|k: int| from <= k < i ==> !is_alpha_byte(#[trigger] s@[k]),
        decreases n - i,
    {
        i += 1;
    }
    proof {
        crate::text::lemma_seek_stops(s@, from as int, i as int, |b: u8| !is_alpha_byte(b));
    }
    i
}

/// Advance `i` to the first colon.
pub fn scan_to_colon(s: &[u8], from: usize) -> (r: usize)
    requires
        from <= s@.len(),
    ensures
        r == seek(s@, from as int, |b: u8| b != 58),
        from <= r <= s@.len(),
        r < s@.len() ==> s@[r as int] == 58,
{
    let n = s.len();
    let mut i = from;
    while i < n && s[i] != 58
        invariant
            from <= i <= n,
            n == s@.len(),
            forall|k: int| from <= k < i ==> s@[k] != 58,
        decreases n - i,
    {
        i += 1;
    }
    proof {
        crate::text::lemma_seek_stops(s@, from as int, i as int, |b: u8| b != 58);
    }
    i
}

/// `s` without leading and trailing ASCII whitespace.
fn trim_bytes(s: &[u8]) -> (r: &[u8])
    ensures
        r@ == trimmed(s@),
{
    let n = s.len();
    let lo = scan_ws(s, 0);
    let mut hi = n;
    while hi > 0 && (s[hi - 1] == 32 || s[hi - 1] == 9 || s[hi - 1] == 10 || s[hi - 1] == 11 || s[hi
        - 1] == 12 || s[hi - 1] == 13)
        invariant
            hi <= n,
            n == s@.len(),
            trim_back(s@, n as int) == trim_back(s@, hi as int),
        decreases hi,
    {
        hi -= 1;
    }
    if lo <= hi {
        &s[lo..hi]
    } else {
        proof {
            assert(s@.subrange(0, 0) =~= Seq::<u8>::empty());
        }
        &s[0..0]
    }
}

pub proof fn lemma_mantissa_push(s: Seq<u8>, i: int)
    requires
        0 <= i < s.len(),
    ensures
        num_mantissa(s.take(i + 1)) == if is_digit_byte(s[i]) {
            num_mantissa(s.take(i)) * 10 + (s[i] - 48) as nat
        } else {
            num_mantissa(s.take(i))
        },
        count_dots(s.take(i + 1)) == count_dots(s.take(i)) + if s[i] == 46 {
            1nat
        } else {
            0nat
        },
        count_digits(s.take(i + 1)) == count_digits(s.take(i)) + if is_digit_byte(s[i]) {
            1nat
        } else {
            0nat
        },
{
    assert(s.take(i + 1).drop_last() =~= s.take(i));
    assert(s.take(i + 1).last() == s[i]);
}

/// Value in bytes of an already-trimmed size token.
fn size_value_bytes(t: &[u8]) -> (r: u64)
    ensures
        r == size_value(t@),
{
    let n = t.len();
    let p = scan_to_alpha(t, 0);
    if p == n {
        return 0;
    }
    let ghost num = t@.subrange(0, p as int);
    proof {
        assert(num =~= t@.take(p as int));
    }
    let mut acc: u128 = 0;
    let mut dot_idx: Option<usize> = None;
    let mut any_digit = false;
    let mut i: usize = 0;
    while i < p
        invariant
            i <= p < n,
            n == t@.len(),
            p as int == seek(t@, 0, |b: u8| !is_alpha_byte(b)),
            num == t@.take(p as int),
            num == t@.subrange(0, p as int),
            acc <= u64::MAX as u128,
            acc as nat == num_mantissa(t@.take(i as int)),
            any_digit == (count_digits(t@.take(i as int)) >= 1),
            match dot_idx {
                Some(d) => d < i && t@[d as int] == 46 && count_dots(t@.take(i as int)) == 1
                    && (forall|k: int| 0 <= k < i && k != d ==> is_digit_byte(#[trigger] t@[k])),
                None => count_dots(t@.take(i as int)) == 0 && (forall|k: int|
                    0 <= k < i ==> is_digit_byte(#[trigger] t@[k])),
            },
        decreases p - i,
    {
        let c = t[i];
        proof {
            lemma_mantissa_push(t@, i as int);
        }
        if 48 <= c && c <= 57 {
            let nacc: u128 = acc * 10 + (c - 48) as u128;
            if nacc > u64::MAX as u128 {
                proof {
                    lemma_num_mantissa_prefix(num, i + 1);
                    assert(num.take(i + 1) =~= t@.take(i + 1));
                }
                return 0;
            }
            acc = nacc;
            any_digit = true;
        } else if c == 46 {
            if dot_idx.is_some() {
                proof {
                    lemma_count_dots_prefix(num, i + 1);
                    assert(num.take(i + 1) =~= t@.take(i + 1));
                }
                return 0;
            }
            dot_idx = Some(i);
        } else {
            proof {
                assert(num[i as int] == t@[i as int]);
            }
            return 0;
        }
        i += 1;
    }
    proof {
        assert(t@.take(p as int) == num);
    }
    if !any_digit {
        return 0;
    }
    let frac: usize = match dot_idx {
        Some(d) => {
            proof {
                lemma_seek_exact(num, d as int, |b: u8| is_digit_byte(b));
            }
            p - d - 1
        },
        None => {
            proof {
                lemma_seek_exact(num, p as int, |b: u8| is_digit_byte(b));
            }
            0
        },
    };
    proof {
        assert(frac as nat == frac_len(num));
        assert(number_ok(num));
    }
    // unit lookup, case-insensitive on ASCII
    let ghost unit = t@.subrange(p as int, n as int);
    let ulen = n - p;
    let b0 = to_lower(t[p]);
    let mult: u64 = if ulen == 1 && b0 == 98 {
        1
    } else if ulen == 2 {
        let b1 = to_lower(t[p + 1]);
        if b0 == 107 && b1 == 98 {
            1024
        } else if b0 == 109 && b1 == 98 {
            1048576
        } else if b0 == 103 && b1 == 98 {
            1073741824
        } else {
            1
        }
    } else if ulen == 3 {
        let b1 = to_lower(t[p + 1]);
        let b2 = to_lower(t[p + 2]);
        if b0 == 107 && b1 == 105 && b2 == 98 {
            1024
        } else if b0 == 109 && b1 == 105 && b2 == 98 {
            1048576
        } else if b0 == 103 && b1 == 105 && b2 == 98 {
            1073741824
        } else {
            1
        }
    } else {
        1
    };
    proof {
        assert(unit.len() == n - p);
        assert(forall|k: int| 0 <= k < unit.len() ==> unit[k] == t@[p + k]);
        assert(mult == unit_multiplier(unit));
    }
    scale_mantissa(acc, mult, frac)
}

/// ASCII lower-casing of a single byte.
fn to_lower(b: u8) -> (r: u8)
    ensures
        r == lower_byte(b),
{
    if 65 <= b && b <= 90 {
        b + 32
    } else {
        b
    }
}

/// `10^e` for exponents that fit in `u128`.
fn pow10_u128(e: usize) -> (r: u128)
    requires
        e <= 38,
    ensures
        r as nat == pow10(e as nat),
{
    proof {
        lemma_pow10_landmarks();
    }
    let mut k: usize = 0;
    let mut acc: u128 = 1;
    while k < e
        invariant
            k <= e <= 38,
            acc as nat == pow10(k as nat),
        decreases e - k,
    {
        proof {
            lemma_pow10_mono((k + 1) as nat, 38);
            assert(pow10((k + 1) as nat) == 10 * pow10(k as nat));
            lemma_pow10_landmarks();
        }
        acc = acc * 10;
        k += 1;
    }
    acc
}

/// `(m * mult) / 10^frac`, rounded down, saturating at `u64::MAX`.
pub fn scale_mantissa(m: u128, mult: u64, frac: usize) -> (r: u64)
    requires
        m <= u64::MAX as u128,
    ensures
        r == scaled_size(m as nat, mult as nat, frac as nat),
{
    proof {
        vstd::arithmetic::mul::lemma_mul_upper_bound(
            m as int,
            u64::MAX as int,
            mult as int,
            u64::MAX as int,
        );
    }
    if frac >= 39 {
        proof {
            lemma_pow10_mono(39, frac as nat);
            lemma_pow10_landmarks();
            vstd::arithmetic::mul::lemma_mul_upper_bound(
                m as int,
                u64::MAX as int,
                mult as int,
                u64::MAX as int,
            );
            vstd::arithmetic::div_mod::lemma_basic_div(
                (m as nat * mult as nat) as int,
                pow10(frac as nat) as int,
            );
        }
        return 0;
    }
    let p10 = pow10_u128(frac);
    proof {
        lemma_pow10_mono(0, frac as nat);
    }
    let prod: u128 = m * (mult as u128);
    let q = prod / p10;
    if q > u64::MAX as u128 {
        u64::MAX
    } else {
        q as u64
    }
}

/// Parse a human-readable size token such as `"10.15GiB"` into bytes.
///
/// The value is the decimal number scaled by the unit's multiplier and
/// rounded down; unknown units use multiplier 1, and malformed tokens
/// parse to 0.
pub fn parse_size_to_bytes(size_str: &str) -> (r: u64)
    ensures
        r == parse_size_spec(size_str.spec_bytes()),
{
    let b = size_str.as_bytes();
    let t = trim_bytes(b);
    size_value_bytes(t)
}

/// Parse a speed token such as `"49.23MiB/s"` into bytes per second:
/// the trailing `"/s"` is stripped and the rest is read as a size.
pub fn parse_speed_to_bytes_per_sec(speed_str: &str) -> (r: u64)
    ensures
        r == parse_speed_spec(speed_str.spec_bytes()),
{
    let b = speed_str.as_bytes();
    let t = trim_bytes(b);
    let mut hi = t.len();
    proof {
        assert(t@.take(hi as int) =~= t@);
    }
    while hi >= 2 && t[hi - 2] == 47 && t[hi - 1] == 115
        invariant
            hi <= t@.len(),
            strip_speed_suffix(t@) == strip_speed_suffix(t@.take(hi as int)),
        decreases hi,
    {
        proof {
            let cur = t@.take(hi as int);
            assert(cur.take(cur.len() - 2) =~= t@.take(hi - 2));
        }
        hi -= 2;
    }
    proof {
        assert(t@.take(t@.len() as int) =~= t@);
        let cur = t@.take(hi as int);
        assert(strip_speed_suffix(cur) == cur);
    }
    let stripped = &t[0..hi];
    let t2 = trim_bytes(stripped);
    size_value_bytes(t2)
}

/// Value of one clock field of an ETA token.
fn clock_part_bytes(s: &[u8], lo: usize, hi: usize) -> (r: u32)
    requires
        lo <= hi <= s@.len(),
    ensures
        r as nat == clock_part(s@.subrange(lo as int, hi as int)),
{
    let ghost part = s@.subrange(lo as int, hi as int);
    if lo == hi {
        return 0;
    }
    let mut acc: u64 = 0;
    let mut i = lo;
    while i < hi
        invariant
            lo <= i <= hi <= s@.len(),
            part == s@.subrange(lo as int, hi as int),
            acc <= u32::MAX as u64,
            acc as nat == num_mantissa(part.take(i - lo)),
            all_digits(part.take(i - lo)),
        decreases hi - i,
    {
        let c = s[i];
        proof {
            lemma_mantissa_push(part, i - lo);
            assert(part[i - lo] == s@[i as int]);
        }
        if !(48 <= c && c <= 57) {
            proof {
                assert(!is_digit_byte(part[i - lo]));
            }
            return 0;
        }
        let nacc: u64 = acc * 10 + (c - 48) as u64;
        if nacc > u32::MAX as u64 {
            proof {
                lemma_num_mantissa_prefix(part, i - lo + 1);
            }
            return 0;
        }
        acc = nacc;
        i += 1;
    }
    proof {
        assert(part.take(hi - lo) =~= part);
    }
    acc as u32
}

/// Parse a clock-style time-remaining token into seconds.
///
/// `"MM:SS"` counts minutes and seconds, `"HH:MM:SS"` also hours; any
/// other number of `:`-separated fields parses to 0, as does any field
/// that is not a plain number.
pub fn parse_eta_to_seconds(eta_str: &str) -> (r: u32)
    ensures
        r == parse_eta_spec(eta_str.spec_bytes()),
{
    eta_value_bytes(eta_str.as_bytes())
}

/// Value in seconds of a clock-style byte sequence.
fn eta_value_bytes(b: &[u8]) -> (r: u32)
    ensures
        r == parse_eta_spec(b@),
{
    let n = b.len();
    let c1 = scan_to_colon(b, 0);
    if c1 == n {
        return 0;
    }
    let c2 = scan_to_colon(b, c1 + 1);
    if c2 == n {
        let m = clock_part_bytes(b, 0, c1) as u64;
        let s = clock_part_bytes(b, c1 + 1, n) as u64;
        let total: u64 = m * 60 + s;
        if total > u32::MAX as u64 {
            u32::MAX
        } else {
            total as u32
        }
    } else {
        let c3 = scan_to_colon(b, c2 + 1);
        if c3 == n {
            let h = clock_part_bytes(b, 0, c1) as u64;
            let m = clock_part_bytes(b, c1 + 1, c2) as u64;
            let s = clock_part_bytes(b, c2 + 1, n) as u64;
            let total: u64 = h * 3600 + m * 60 + s;
            if total > u32::MAX as u64 {
                u32::MAX
            } else {
                total as u32
            }
        } else {
            0
        }
    }
}

/// Parse the bytes `b[lo..hi]` as a size token.
pub fn parse_size_region(b: &[u8], lo: usize, hi: usize) -> (r: u64)
    requires
        lo <= hi <= b@.len(),
    ensures
        r == parse_size_spec(b@.subrange(lo as int, hi as int)),
{
    let t = trim_bytes(&b[lo..hi]);
    size_value_bytes(t)
}

/// Parse the bytes `b[lo..hi]` as a clock-style time token.
pub fn parse_eta_region(b: &[u8], lo: usize, hi: usize) -> (r: u32)
    requires
        lo <= hi <= b@.len(),
    ensures
        r == parse_eta_spec(b@.subrange(lo as int, hi as int)),
{
    eta_value_bytes(&b[lo..hi])
}

} // verus!
