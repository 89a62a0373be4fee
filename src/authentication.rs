use vstd::prelude::*;

verus! {

#[verifier::external_type_specification]
#[verifier::external_body]
pub struct ExValue(serde_json::Value);

/// Why a bearer token was refused.
#[derive(Debug, Clone, Copy, PartialEq, Eq, Structural)]
pub enum JwtAuthenticationError {
    ExpiredToken,
    TamperedToken,
    Unknown,
}

/// How the token decoder refused a token.
#[derive(Debug, Clone, Copy, PartialEq, Eq, Structural)]
pub enum JwtFailure {
    InvalidSignature,
    ExpiredSignature,
    Other,
}

/// The authentication error for a refusal: a bad signature means the token was tampered
/// with, an expired one that it is too old.
pub open spec fn error_for(failure: JwtFailure) -> JwtAuthenticationError {
    match failure {
        JwtFailure::InvalidSignature => JwtAuthenticationError::TamperedToken,
        JwtFailure::ExpiredSignature => JwtAuthenticationError::ExpiredToken,
        JwtFailure::Other => JwtAuthenticationError::Unknown,
    }
}

pub fn authentication_error(failure: JwtFailure) -> (r: JwtAuthenticationError)
    ensures
        r == error_for(failure),
{
    match failure {
        JwtFailure::InvalidSignature => JwtAuthenticationError::TamperedToken,
        JwtFailure::ExpiredSignature => JwtAuthenticationError::ExpiredToken,
        JwtFailure::Other => JwtAuthenticationError::Unknown,
    }
}

/// Relies on `jsonwebtoken::decode` with a shared HMAC secret and the default validation
/// (HS256, expiry checked against the clock): the claims of a token it accepts, or how it
/// refused it. Nothing is promised of which, since the outcome depends on the time.
#[verifier::external_body]
fn decode_token(token: &str, secret: &str) -> (r: Result<serde_json::Value, JwtFailure>) {
    let key = jsonwebtoken::DecodingKey::from_secret(secret.as_bytes());
    match jsonwebtoken::decode::<serde_json::Value>(token, &key, &jsonwebtoken::Validation::default()) {
        Ok(data) => Ok(data.claims),
        Err(e) => Err(match e.kind() {
            jsonwebtoken::errors::ErrorKind::InvalidSignature => JwtFailure::InvalidSignature,
            jsonwebtoken::errors::ErrorKind::ExpiredSignature => JwtFailure::ExpiredSignature,
            _ => JwtFailure::Other,
        }),
    }
}

/// Checks bearer tokens against a shared secret.
pub struct JwtAuthenticator {
    secret: String,
}

impl JwtAuthenticator {
    pub closed spec fn secret_view(&self) -> Seq<char> {
        self.secret@
    }

    pub fn new(secret: String) -> (r: JwtAuthenticator)
        ensures
            r.secret_view() == secret@,
    {
        JwtAuthenticator { secret }
    }

    /// The claims of a valid token; a refused token maps to its authentication error.
    pub fn validate_jwt(&self, token: &str) -> (r: Result<serde_json::Value, JwtAuthenticationError>)
        ensures
            r matches Err(e) ==> exists|f: JwtFailure| e == error_for(f),
    {
        match decode_token(token, self.secret.as_str()) {
            Ok(claims) => Ok(claims),
            Err(f) => Err(authentication_error(f)),
        }
    }

    /// The authentication of a request given the token of its `Authorization: Bearer`
    /// header. Without one the request is anonymous, which is not an error.
    pub fn extract_authentication(&self, bearer_token: Option<&str>) -> (r: Result<Option<serde_json::Value>, JwtAuthenticationError>)
        ensures
            bearer_token is None ==> r matches Ok(None),
            bearer_token is Some ==> r matches Ok(Some(_)) || r is Err,
    {
        match bearer_token {
            None => Ok(None),
            Some(token) => match self.validate_jwt(token) {
                Ok(claims) => Ok(Some(claims)),
                Err(e) => Err(e),
            },
        }
    }
}

} // verus!
