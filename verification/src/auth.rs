//! Which requests reach the service: only those that carry the secret token.
use vstd::prelude::*;

verus! {

/// The answer of the token check to a request.
pub enum AuthDecision {
    /// The request goes on to the service.
    Forward,
    /// The request is answered `401 Unauthorized` with this body.
    Unauthorized(String),
}

/// Whether `token` is the service's secret.
pub fn secret_is_valid(token: &str) -> (valid: bool)
    ensures
        valid == (token@ == "1234"@),
{
    token.to_owned() == "1234".to_owned()
}

/// The marker of the token-checking layer; the layer itself is the caller's.
pub struct Validation;

impl Validation {
    /// What the layer does with a request whose `Secret` header holds `token`
    /// (`None` where it has none, or none readable as text): a request without a
    /// token, or with a wrong one, is turned away with the reason; any other goes on.
    pub fn authorize(token: Option<&str>) -> (decision: AuthDecision)
        ensures
            match token {
                None => match decision {
                    AuthDecision::Unauthorized(body) => body@ == "No secret token found"@,
                    AuthDecision::Forward => false,
                },
                Some(token) => if token@ == "1234"@ {
                    decision matches AuthDecision::Forward
                } else {
                    match decision {
                        AuthDecision::Unauthorized(body) => body@ == "Invalid secret token"@,
                        AuthDecision::Forward => false,
                    }
                },
            },
    {
        let token = match token {
            None => {
                return AuthDecision::Unauthorized("No secret token found".to_owned());
            },
            Some(token) => token,
        };
        if !secret_is_valid(token) {
            return AuthDecision::Unauthorized("Invalid secret token".to_owned());
        }
        AuthDecision::Forward
    }
}

} // verus!
