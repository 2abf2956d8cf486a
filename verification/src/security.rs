//! User-context resolution from an opaque token.
use vstd::prelude::*;

use crate::numeric::{is_i64_token, i64_token_value, parse_i64};

verus! {

/// Per-request identity resolved from a token; carries a single numeric
/// user id and no other claims or expiry.
pub struct UserCtx {
    pub user_id: i64,
}

/// Failure of token resolution, carrying the offending token.
#[derive(Debug)]
pub enum Error {
    InvalidToken(String),
}

/// Derives a user context by reading the token as a base-10 integer; a
/// non-numeric token fails with `InvalidToken` carrying the original
/// string. A deliberate stand-in for credential verification, not
/// production authentication.
pub fn utx_from_token(token: &str) -> (r: Result<UserCtx, Error>)
    ensures
        is_i64_token(token@) ==> (r matches Ok(u) && u.user_id as int == i64_token_value(token@)),
        !is_i64_token(token@) ==> (r matches Err(Error::InvalidToken(t)) && t@ == token@),
{
    match parse_i64(token) {
        Some(user_id) => Ok(UserCtx { user_id }),
        None => Err(Error::InvalidToken(token.to_owned())),
    }
}

} // verus!
