//! Bearer-token validation of the `Authorization` header.
use vstd::prelude::*;
use vstd::string::*;
use crate::text::{is_prefix_of, starts_with};

verus! {

/// The identity and roles carried by an accepted token.
#[derive(Debug)]
pub struct Claims {
    pub sub: String,
    pub exp: usize,
    pub roles: Option<Vec<String>>,
}

/// Validates `Authorization` headers.
pub struct AuthValidator;

/// The scheme prefix that a bearer token header starts with.
pub open spec fn bearer_prefix() -> Seq<char> {
    "Bearer "@
}

/// The subject that every accepted token stands for.
pub open spec fn token_subject() -> Seq<char> {
    "user-12345"@
}

/// The expiry carried by every accepted token (the value `9999999999`, which a 64-bit `usize` holds).
pub open spec fn token_expiry() -> usize {
    9999999999u64 as usize
}

/// The roles carried by every accepted token, in order.
pub open spec fn token_roles() -> Seq<Seq<char>> {
    seq!["admin"@, "user"@]
}

/// The error for each rejected header, or `None` when the header is accepted.
pub open spec fn header_rejection(header: Option<Seq<char>>) -> Option<Seq<char>> {
    match header {
        None => Some("Missing Authorization header"@),
        Some(h) => if !is_prefix_of(bearer_prefix(), h) {
            Some("Invalid token format, expected 'Bearer <token>'"@)
        } else if h.len() == bearer_prefix().len() {
            Some("Empty bearer token"@)
        } else {
            None
        },
    }
}

/// The text of an optional header.
pub open spec fn header_text(h: Option<&str>) -> Option<Seq<char>> {
    match h {
        Some(s) => Some(s@),
        None => None,
    }
}

/// The claims every accepted token stands for.
pub open spec fn is_issued_claims(c: Claims) -> bool {
    &&& c.sub@ == token_subject()
    &&& c.exp == token_expiry()
    &&& c.roles matches Some(roles) && roles@.map_values(|r: String| r@) == token_roles()
}

impl AuthValidator {
    /// Accepts a header of the form `Bearer <token>` with a non-empty token.
    pub fn validate_header(auth_header: Option<&str>) -> (r: Result<Claims, String>)
        ensures
            r is Ok <==> header_rejection(header_text(auth_header)) is None,
            r matches Ok(c) ==> is_issued_claims(c),
            r matches Err(e) ==> header_rejection(header_text(auth_header)) == Some(e@),
    {
        let header = match auth_header {
            Some(h) => h,
            None => {
                return Err(String::from_str("Missing Authorization header"));
            },
        };
        proof {
            reveal_strlit("Bearer ");
        }
        if !starts_with(header, "Bearer ") {
            return Err(String::from_str("Invalid token format, expected 'Bearer <token>'"));
        }
        if header.unicode_len() == 7 {
            return Err(String::from_str("Empty bearer token"));
        }
        let mut roles: Vec<String> = Vec::new();
        roles.push(String::from_str("admin"));
        roles.push(String::from_str("user"));
        let claims = Claims {
            sub: String::from_str("user-12345"),
            exp: 9999999999u64 as usize,
            roles: Some(roles),
        };
        assert(roles@.map_values(|r: String| r@) =~= token_roles());
        Ok(claims)
    }
}

} // verus!
