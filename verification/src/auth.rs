//! Authentication by a static bearer token.

use vstd::prelude::*;

use crate::text;
use crate::text::{same_text, strip_prefix};

verus! {

/// Whether an `Authorization` header carries the expected token.
pub open spec fn carries_token(header: Option<Seq<char>>, token: Seq<char>) -> bool {
    header == Some("Bearer "@ + token)
}

/// Whether the `Authorization` header of a request, if it has one, carries the expected token.
pub fn check_auth(header: &Option<String>, expected_token: &str) -> (res: bool)
    ensures
        res == carries_token(header.deep_view(), expected_token@),
{
    match header {
        Some(value) => match strip_prefix(value, "Bearer ") {
            Some(token) => {
                assert("Bearer "@ + token@ =~= value@);
                assert(("Bearer "@ + expected_token@).skip("Bearer "@.len() as int)
                    =~= expected_token@);
                same_text(&token, expected_token)
            },
            None => {
                assert(text::has_prefix("Bearer "@ + expected_token@, "Bearer "@)) by {
                    assert(("Bearer "@ + expected_token@).subrange(0, "Bearer "@.len() as int)
                        =~= "Bearer "@);
                }
                false
            },
        },
        None => false,
    }
}

/// One `Authorization` header carries a token, and a header carries at most one token.
pub proof fn law_one_header_per_token(
    header: Seq<char>,
    a: Seq<char>,
    other: Option<Seq<char>>,
    b: Seq<char>,
)
    requires
        carries_token(Some(header), a),
    ensures
        carries_token(other, a) <==> other == Some(header),
        carries_token(Some(header), b) <==> a == b,
{
    if carries_token(Some(header), b) {
        assert(header.skip("Bearer "@.len() as int) =~= a);
        assert(header.skip("Bearer "@.len() as int) =~= b);
    }
}

} // verus!
