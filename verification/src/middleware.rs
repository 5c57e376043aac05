use vstd::prelude::*;
use vstd::string::StrSliceExecFns;

use crate::errors::AppError;
use crate::jwt::{token_claims, verify_token, Claims};

verus! {

/// The bearer scheme prefix of an authorization header.
pub open spec fn bearer_prefix() -> Seq<char> {
    seq!['B', 'e', 'a', 'r', 'e', 'r', ' ']
}

/// A header value carries the bearer scheme when it starts with the
/// prefix; the token is whatever follows it.
pub open spec fn has_bearer_scheme(header: Seq<char>) -> bool {
    header.len() >= 7 && header.subrange(0, 7) == bearer_prefix()
}

/// The character of the bearer prefix at the given position.
fn bearer_char(i: usize) -> (c: char)
    requires
        i < 7,
    ensures
        c == bearer_prefix()[i as int],
{
    match i {
        0 => 'B',
        1 => 'e',
        2 => 'a',
        3 => 'r',
        4 => 'e',
        5 => 'r',
        _ => ' ',
    }
}

/// Strips the bearer scheme off a header value, handing back the token
/// that follows it, or nothing when the scheme is absent.
pub fn strip_bearer(header: &str) -> (r: Option<&str>)
    ensures
        match r {
            Some(t) => has_bearer_scheme(header@) && t@ == header@.skip(7),
            None => !has_bearer_scheme(header@),
        },
{
    let n = header.unicode_len();
    if n < 7 {
        proof {
            assert(!has_bearer_scheme(header@));
        }
        return None;
    }
    let mut i: usize = 0;
    while i < 7
        invariant
            i <= 7,
            7 <= n == header@.len(),
            forall|j: int| 0 <= j < i ==> header@[j] == bearer_prefix()[j],
        decreases 7 - i,
    {
        if header.get_char(i) != bearer_char(i) {
            proof {
                assert(header@.subrange(0, 7)[i as int] != bearer_prefix()[i as int]);
            }
            return None;
        }
        i += 1;
    }
    proof {
        assert(header@.subrange(0, 7) =~= bearer_prefix());
    }
    Some(header.substring_char(7, n))
}

/// The request authenticator: turns an optional authorization header into
/// a verified identity, or rejects the request.
pub struct AuthMiddleWare;

/// How the authenticator answers a request: an identity exactly when the
/// header carries a bearer token that verifies against the secret.
pub open spec fn authenticate_ok(
    header: Option<Seq<char>>,
    secret: Seq<char>,
    r: Result<Claims, AppError>,
) -> bool {
    match header {
        None => r matches Err(e) && (e matches AppError::UnauthorizedError(m) && m@
            == "No token provided"@),
        Some(h) => if !has_bearer_scheme(h) {
            r matches Err(e) && (e matches AppError::UnauthorizedError(m) && m@
                == "Invalid token format"@)
        } else {
            match r {
                Ok(c) => token_claims(h.skip(7), secret) == Some(c@),
                Err(e) => e matches AppError::UnauthorizedError(m) && m@
                    == "Invalid or expired token"@,
            }
        },
    }
}

impl AuthMiddleWare {
    /// Authenticates one request from its authorization header: the header
    /// must be present, carry the bearer scheme, and hold a token that
    /// verifies against the secret; the identity signed into the token
    /// comes back. Each failure is reported as `UnauthorizedError` with a
    /// message naming the stage that failed.
    pub fn authenticate(auth_header: Option<&str>, secret: &str) -> (r: Result<Claims, AppError>)
        ensures
            authenticate_ok(
                match auth_header {
                    Some(h) => Some(h@),
                    None => None,
                },
                secret@,
                r,
            ),
    {
        let header = match auth_header {
            Some(h) => h,
            None => {
                return Err(AppError::UnauthorizedError("No token provided".to_owned()));
            },
        };
        let token = match strip_bearer(header) {
            Some(t) => t,
            None => {
                return Err(AppError::UnauthorizedError("Invalid token format".to_owned()));
            },
        };
        match verify_token(token, secret) {
            Ok(claims) => Ok(claims),
            Err(_) => Err(AppError::UnauthorizedError("Invalid or expired token".to_owned())),
        }
    }
}

/// The authorization gate for admin-only routes, run strictly after the
/// authenticator.
pub struct AdminMiddleware;

impl AdminMiddleware {
    /// Lets a request through exactly when an identity was attached and it
    /// carries the admin flag; anything else is `ForbiddenError`.
    pub fn authorize(claims: Option<&Claims>) -> (r: Result<(), AppError>)
        ensures
            r is Ok <==> (claims matches Some(c) && c.is_admin),
            r matches Err(e) ==> e matches AppError::ForbiddenError(m) && m@
                == "Admin access required"@,
    {
        let is_admin = match claims {
            Some(c) => c.is_admin,
            None => false,
        };
        if is_admin {
            Ok(())
        } else {
            Err(AppError::ForbiddenError("Admin access required".to_owned()))
        }
    }
}

} // verus!
