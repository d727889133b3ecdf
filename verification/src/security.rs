//! Bearer-token admission for the HTTP transport.

use vstd::prelude::*;

use crate::text::{chars_eq, chars_of};

verus! {

/// A request is admitted when no token is configured, or when its
/// `Authorization` header is exactly `Bearer ` followed by the token.
pub open spec fn bearer_admits(expected: Option<Seq<char>>, authorization: Option<Seq<char>>) -> bool {
    match expected {
        None => true,
        Some(t) => authorization == Some("Bearer "@ + t),
    }
}

/// Whether a request with this `Authorization` header (if any) may pass,
/// given the configured token (if any).
pub fn bearer_authorized(expected: Option<&str>, authorization: Option<&str>) -> (r: bool)
    ensures
        r == bearer_admits(
            match expected {
                Some(t) => Some(t@),
                None => None,
            },
            match authorization {
                Some(h) => Some(h@),
                None => None,
            },
        ),
{
    match expected {
        None => true,
        Some(t) => match authorization {
            None => false,
            Some(h) => {
                let mut want = chars_of("Bearer ");
                let tok = chars_of(t);
                let ghost prefix = want@;
                let mut i: usize = 0;
                while i < tok.len()
                    invariant
                        i <= tok@.len(),
                        want@ == prefix + tok@.take(i as int),
                    decreases tok@.len() - i,
                {
                    want.push(tok[i]);
                    assert(tok@.take(i + 1) == tok@.take(i as int).push(tok@[i as int]));
                    i = i + 1;
                }
                assert(tok@.take(tok@.len() as int) == tok@);
                let got = chars_of(h);
                chars_eq(got.as_slice(), want.as_slice())
            },
        },
    }
}

} // verus!
