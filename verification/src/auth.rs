//! Bearer-token authorization of `/metrics`, and the readiness reply.

use vstd::prelude::*;

use crate::text::strip_prefix;
use subtle::ConstantTimeEq;
use vstd::string::StringSliceAdditionalSpecFns;

verus! {

/// Calls `subtle::ConstantTimeEq::ct_eq` on the two texts' UTF-8 bytes and
/// converts the `Choice` to `bool`. Per the crate's source, slices of
/// different lengths compare unequal at once and equal-length slices are
/// compared byte by byte in constant time, so the result is byte equality,
/// which for UTF-8 text is equality of the characters.
#[verifier::external_body]
fn constant_time_eq(a: &str, b: &str) -> (r: bool)
    ensures
        r == (a@ == b@),
{
    a.as_bytes().ct_eq(b.as_bytes()).into()
}

/// The token a request presents: what follows `Bearer ` in its
/// `Authorization` header, or nothing.
pub open spec fn presented_token(authorization: Option<Seq<char>>) -> Seq<char> {
    match authorization {
        Some(v) => if v.len() >= 7 && v.take(7) == "Bearer "@ {
            v.skip(7)
        } else {
            Seq::empty()
        },
        None => Seq::empty(),
    }
}

/// Whether a request with this `Authorization` header may read `/metrics`.
pub open spec fn authorized(authorization: Option<Seq<char>>, configured: Option<Seq<char>>) -> bool {
    match configured {
        None => true,
        Some(expected) => presented_token(authorization) == expected,
    }
}

pub open spec fn opt_str(v: Option<&str>) -> Option<Seq<char>> {
    match v {
        Some(s) => Some(s@),
        None => None,
    }
}

/// Authenticate a request against an optional configured bearer token.
///
/// `authorization` is the request's `Authorization` header, when it is
/// present and visible ASCII. With no token configured every request is
/// authorized; otherwise the header must read `Bearer <token>`. The bytes
/// are compared in constant time and the length and content checks are
/// combined without short-circuiting.
pub fn is_authorized(authorization: Option<&str>, configured_token: Option<&str>) -> (r: bool)
    ensures
        r == authorized(opt_str(authorization), opt_str(configured_token)),
{
    proof {
        reveal_strlit("Bearer ");
        reveal_strlit("");
    }
    let expected = match configured_token {
        None => {
            return true;
        },
        Some(t) => t,
    };
    let provided = match authorization {
        Some(v) => match strip_prefix(v, "Bearer ") {
            Some(rest) => rest,
            None => "",
        },
        None => "",
    };
    assert(provided@ == presented_token(opt_str(authorization)));
    let len_eq = provided.len() == expected.len();
    let bytes_eq = constant_time_eq(provided, expected);
    proof {
        if bytes_eq {
            assert(provided.spec_bytes() == expected.spec_bytes());
        }
    }
    // Combined as bits, so that the decision does not short-circuit on the
    // length check.
    let both = (len_eq as u8) & (bytes_eq as u8);
    assert(both == 1 <==> (len_eq && bytes_eq)) by (bit_vector)
        requires
            both == (len_eq as u8) & (bytes_eq as u8),
    ;
    assert(bytes_eq ==> len_eq);
    assert((both == 1) == bytes_eq);
    both == 1
}

/// The `/ready` reply: `200 ready` unless the breaker is open, then
/// `503 not ready`.
pub fn ready_reply(ready: bool) -> (r: (u16, &'static str))
    ensures
        r.0 == (if ready {
            200u16
        } else {
            503u16
        }),
        r.1@ == (if ready {
            "ready"@
        } else {
            "not ready"@
        }),
{
    if ready {
        (200, "ready")
    } else {
        (503, "not ready")
    }
}

/// With no token configured, every request is authorized; with one, exactly
/// the requests whose header is `Bearer ` followed by the token are.
pub proof fn lemma_authorization(authorization: Option<Seq<char>>, token: Seq<char>)
    ensures
        authorized(authorization, None),
        authorized(authorization, Some(token)) <==> authorization == Some("Bearer "@ + token)
            || (token.len() == 0 && !(authorization matches Some(v) && v.len() >= 7 && v.take(7)
            == "Bearer "@)),
{
    reveal_strlit("Bearer ");
    match authorization {
        Some(v) => {
            if v.len() >= 7 && v.take(7) == "Bearer "@ {
                if v.skip(7) == token {
                    assert(v =~= "Bearer "@ + token);
                }
                if v == "Bearer "@ + token {
                    assert(v.skip(7) =~= token);
                }
            } else {
                if v == "Bearer "@ + token {
                    assert(v.take(7) =~= "Bearer "@);
                }
                if token.len() == 0 {
                    assert(token =~= Seq::<char>::empty());
                }
            }
        },
        None => {
            if token.len() == 0 {
                assert(token =~= Seq::<char>::empty());
            }
        },
    }
}

} // verus!
