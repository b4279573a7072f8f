//! The outcomes that the store, the token authority and the service report
//! instead of a value.

use vstd::prelude::*;

verus! {

/// Why an operation returned no value.
#[derive(Clone, Copy, Debug, PartialEq, Eq, Structural)]
pub enum AuthError {
    /// A username, an e-mail address or a token is already taken.
    Conflict,
    /// The credentials do not match, or the token is invalid, expired or revoked.
    Unauthorized,
    /// The user or token that should be changed is absent.
    NotFound,
    /// Hashing, signing or identifier generation failed.
    Internal,
}

impl AuthError {
    /// The HTTP status that the routing layer answers with.
    pub open spec fn spec_status_code(self) -> u16 {
        match self {
            AuthError::Conflict => 409,
            AuthError::Unauthorized => 401,
            AuthError::NotFound => 404,
            AuthError::Internal => 500,
        }
    }

    #[verifier::when_used_as_spec(spec_status_code)]
    pub fn status_code(self) -> (code: u16)
        ensures
            code == self.spec_status_code(),
    {
        match self {
            AuthError::Conflict => 409,
            AuthError::Unauthorized => 401,
            AuthError::NotFound => 404,
            AuthError::Internal => 500,
        }
    }
}

/// The routes of the service.
#[derive(Clone, Copy, Debug, PartialEq, Eq, Structural)]
pub enum Route {
    Register,
    Login,
    Verify,
    Logout,
}

/// The HTTP status of an answer on a route: 200 for success, else the
/// status of the error, but for a logout of a token that is not active,
/// which is answered with 409.
pub open spec fn spec_response_status(route: Route, error: Option<AuthError>) -> u16 {
    match error {
        None => 200,
        Some(e) => if route == Route::Logout && e == AuthError::NotFound {
            409
        } else {
            e.spec_status_code()
        },
    }
}

#[verifier::when_used_as_spec(spec_response_status)]
pub fn response_status(route: Route, error: Option<AuthError>) -> (code: u16)
    ensures
        code == spec_response_status(route, error),
{
    match error {
        None => 200,
        Some(e) => match (route, e) {
            (Route::Logout, AuthError::NotFound) => 409,
            _ => e.status_code(),
        },
    }
}

} // verus!
