//! Rendering integers as decimal strings, with an exact character-level
//! specification.

use vstd::prelude::*;

verus! {

use vstd::string::StringExecFns;

/// The decimal digit character for `d < 10`.
pub open spec fn digit_char(d: nat) -> char {
    ((48 + d) as u8) as char
}

/// The decimal digits of `n`, most significant first, no sign and no
/// leading zeros (except for `n == 0` itself).
pub open spec fn dec_str(n: nat) -> Seq<char>
    decreases n,
{
    if n < 10 {
        seq![digit_char(n)]
    } else {
        dec_str(n / 10).push(digit_char(n % 10))
    }
}

/// The decimal digits of `i`, with a leading `'-'` when negative.
pub open spec fn int_str(i: int) -> Seq<char> {
    if i < 0 {
        seq!['-'] + dec_str((-i) as nat)
    } else {
        dec_str(i as nat)
    }
}

/// Relies on `u64`'s `Display` implementation through `ToString`: the
/// result is the value's decimal digits, most significant first, without
/// sign, padding or leading zeros.
#[verifier::external_body]
pub fn u64_to_string(n: u64) -> (r: String)
    ensures
        r@ == dec_str(n as nat),
{
    n.to_string()
}

/// Decimal rendering of a signed value, sign handled here so that only
/// the digits are taken on trust.
pub fn i64_to_string(n: i64) -> (r: String)
    ensures
        r@ == int_str(n as int),
{
    if n < 0 {
        let mag: u64 = ((-(n as i128)) as u128) as u64;
        let digits = u64_to_string(mag);
        let s: String = "-".to_owned();
        let r = s.concat(digits.as_str());
        proof {
            reveal_strlit("-");
            assert(r@ =~= int_str(n as int));
        }
        r
    } else {
        u64_to_string(n as u64)
    }
}

} // verus!
