//! Percent-decoding of request paths.
//!
//! The decode itself is done by the `percent_encoding` crate; its behaviour
//! is stated exactly by [`pct_decode`]: a `%` followed by two hex digits
//! yields the encoded byte, any other byte (including a `%` not so followed)
//! passes through unchanged. A request path in which some `%` is not
//! followed by two hex digits is treated as malformed by the resolver;
//! [`pct_wellformed`] captures that condition.

use vstd::prelude::*;
use crate::bytes::PERCENT;

verus! {

/// Whether `b` is an ASCII hex digit.
pub open spec fn is_hex_digit(b: u8) -> bool {
    (48 <= b && b <= 57) || (97 <= b && b <= 102) || (65 <= b && b <= 70)
}

/// Numeric value of an ASCII hex digit.
pub open spec fn hex_val(b: u8) -> u8 {
    if 48 <= b && b <= 57 {
        (b - 48) as u8
    } else if 97 <= b && b <= 102 {
        (b - 87) as u8
    } else {
        (b - 55) as u8
    }
}

/// The byte written as the two hex digits `h` `l`.
pub open spec fn hex_byte(h: u8, l: u8) -> u8 {
    (hex_val(h) * 16 + hex_val(l)) as u8
}

/// Every `%` starts a `%XY` triple with two hex digits, scanning left to
/// right and never re-reading consumed digits.
pub open spec fn pct_wellformed(s: Seq<u8>) -> bool
    decreases s.len(),
{
    if s.len() == 0 {
        true
    } else if s[0] == PERCENT {
        s.len() >= 3 && is_hex_digit(s[1]) && is_hex_digit(s[2]) && pct_wellformed(s.skip(3))
    } else {
        pct_wellformed(s.skip(1))
    }
}

/// What `percent_encoding::percent_decode` returns on `s`.
pub open spec fn pct_decode(s: Seq<u8>) -> Seq<u8>
    decreases s.len(),
{
    if s.len() == 0 {
        Seq::empty()
    } else if s[0] == PERCENT && s.len() >= 3 && is_hex_digit(s[1]) && is_hex_digit(s[2]) {
        seq![hex_byte(s[1], s[2])] + pct_decode(s.skip(3))
    } else {
        seq![s[0]] + pct_decode(s.skip(1))
    }
}

/// Relies on `percent_encoding::percent_decode`: each `%` followed by two
/// hex digits (case-insensitive) is replaced by the encoded byte; every
/// other byte, and a `%` not followed by two hex digits, is kept as is.
#[verifier::external_body]
fn percent_decode_call(s: &[u8]) -> (r: Vec<u8>)
    ensures
        r@ == pct_decode(s@),
{
    percent_encoding::percent_decode(s).collect()
}

/// Whether `b` is an ASCII hex digit.
pub fn is_hex_digit_exec(b: u8) -> (r: bool)
    ensures
        r == is_hex_digit(b),
{
    (48 <= b && b <= 57) || (97 <= b && b <= 102) || (65 <= b && b <= 70)
}

/// Whether every `%` in `s` starts a valid `%XY` triple.
pub fn pct_wellformed_exec(s: &Vec<u8>) -> (r: bool)
    ensures
        r == pct_wellformed(s@),
{
    let mut i: usize = 0;
    proof {
        assert(s@.skip(0) =~= s@);
    }
    while i < s.len()
        invariant
            i <= s.len(),
            pct_wellformed(s@) == pct_wellformed(s@.skip(i as int)),
        decreases s.len() - i,
    {
        proof {
            assert(s@.skip(i as int)[0] == s@[i as int]);
        }
        if s[i] == PERCENT {
            if s.len() - i < 3 {
                proof {
                    assert(s@.skip(i as int).len() < 3);
                }
                return false;
            }
            proof {
                assert(s@.skip(i as int)[1] == s@[i + 1]);
                assert(s@.skip(i as int)[2] == s@[i + 2]);
            }
            if !is_hex_digit_exec(s[i + 1]) || !is_hex_digit_exec(s[i + 2]) {
                return false;
            }
            proof {
                assert(s@.skip(i as int).skip(3) =~= s@.skip(i + 3));
            }
            i = i + 3;
        } else {
            proof {
                assert(s@.skip(i as int).skip(1) =~= s@.skip(i + 1));
            }
            i = i + 1;
        }
    }
    proof {
        assert(s@.skip(s@.len() as int).len() == 0);
    }
    true
}

/// Percent-decodes `s`, or reports that some `%` is not followed by two
/// hex digits.
pub fn decode_percent(s: &Vec<u8>) -> (r: Option<Vec<u8>>)
    ensures
        r is Some <==> pct_wellformed(s@),
        r is Some ==> r->0@ == pct_decode(s@),
{
    if !pct_wellformed_exec(s) {
        return None;
    }
    Some(percent_decode_call(s.as_slice()))
}

} // verus!
