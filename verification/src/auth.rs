//! The Basic-auth check.
//!
//! With no configured credential every request passes. Otherwise the
//! `Authorization` header must read `Basic ` followed by the base64 of the
//! exact credential bytes; anything else is denied and answered `401`.

use vstd::prelude::*;
use crate::bytes::{bytes_eq, tail_of};

verus! {

/// What `base64::decode` returns on `s`: the decoded bytes, or nothing
/// when `s` is not valid standard base64.
pub uninterp spec fn base64_decode_of(s: Seq<u8>) -> Option<Seq<u8>>;

/// Relies on `base64::decode`: standard alphabet with padding; the result
/// depends on the input alone, and invalid input is an error.
#[verifier::external_body]
fn b64_decode(s: &Vec<u8>) -> (r: Option<Vec<u8>>)
    ensures
        r is Some <==> base64_decode_of(s@) is Some,
        r is Some ==> base64_decode_of(s@) == Some(r->0@),
{
    match base64::decode(s.as_slice()) {
        Ok(v) => Some(v),
        Err(_) => None,
    }
}

/// `Basic ` — the required header prefix, space included.
pub open spec fn basic_prefix() -> Seq<u8> {
    seq![66u8, 97, 115, 105, 99, 32]
}

/// The header authenticates against the credential: it begins with
/// `Basic ` and the remainder decodes to exactly the credential bytes.
pub open spec fn header_matches(cred: Seq<u8>, header: Seq<u8>) -> bool {
    &&& header.len() >= 6
    &&& header.take(6) == basic_prefix()
    &&& base64_decode_of(header.skip(6)) == Some(cred)
}

/// The request is let through: no credential is configured, or the
/// `Authorization` header matches it.
pub open spec fn auth_passes(cred: Option<Seq<u8>>, header: Option<Seq<u8>>) -> bool {
    match cred {
        Option::None => true,
        Option::Some(c) => match header {
            Option::None => false,
            Option::Some(h) => header_matches(c, h),
        },
    }
}

/// Checks one `Authorization` header value against the credential.
pub fn check_header(cred: &Vec<u8>, header: &Vec<u8>) -> (r: bool)
    ensures
        r == header_matches(cred@, header@),
{
    if header.len() < 6 {
        return false;
    }
    if !(header[0] == 66 && header[1] == 97 && header[2] == 115 && header[3] == 105
        && header[4] == 99 && header[5] == 32) {
        proof {
            assert(header@.take(6) != basic_prefix());
        }
        return false;
    }
    proof {
        assert(header@.take(6) =~= basic_prefix());
    }
    let rest = tail_of(header, 6);
    match b64_decode(&rest) {
        Option::Some(decoded) => bytes_eq(&decoded, cred),
        Option::None => false,
    }
}

/// Runs the auth check for a request.
pub fn auth_guard(cred: &Option<Vec<u8>>, header: &Option<Vec<u8>>) -> (r: bool)
    ensures
        r == auth_passes(cred.deep_view(), header.deep_view()),
{
    match cred {
        Option::None => true,
        Option::Some(c) => match header {
            Option::None => false,
            Option::Some(h) => {
                proof {
                    assert(c.deep_view() =~= c@);
                    assert(h.deep_view() =~= h@);
                }
                check_header(c, h)
            },
        },
    }
}

} // verus!
