//! Requests to application services: the homeserver token goes into the
//! query string.
use vstd::prelude::*;
use vstd::string::*;
use crate::text::{seq_contains, str_contains};

verus! {

/// The path and query of a request to an application service with the
/// homeserver token added: `?access_token=` and the token when the path
/// has no query yet, `&access_token=` and the token otherwise.
pub open spec fn with_access_token_spec(path_and_query: Seq<char>, token: Seq<char>) -> Seq<char> {
    path_and_query + (if seq_contains(path_and_query, seq!['?']) {
        seq!['&']
    } else {
        seq!['?']
    }) + "access_token="@ + token
}

/// Adds the homeserver token to a request's path and query.
pub fn with_access_token(path_and_query: &str, token: &str) -> (s: String)
    ensures
        s@ == with_access_token_spec(path_and_query@, token@),
{
    proof {
        reveal_strlit("?");
        reveal_strlit("&");
        assert("?"@ =~= seq!['?']);
        assert("&"@ =~= seq!['&']);
    }
    let has_query = str_contains(path_and_query, "?");
    let mut s = String::from_str(path_and_query);
    if has_query {
        s.append("&");
    } else {
        s.append("?");
    }
    s.append("access_token=");
    s.append(token);
    assert(s@ =~= with_access_token_spec(path_and_query@, token@));
    s
}

} // verus!
