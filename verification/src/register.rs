//! The decision at the heart of API-key registration: what a
//! successful token-endpoint reply means for the caller. The HTTP
//! exchange itself lives outside this crate; this function judges
//! the fields of the parsed reply.
use vstd::prelude::*;

verus! {

/// What the token endpoint's reply decides.
pub enum TokenDecision {
    /// A key was issued; here it is.
    Granted(String),
    /// The account is sanctioned: no key, regardless of the rest of
    /// the reply.
    Banned,
    /// Not banned, but no key came back either.
    MissingToken,
}

/// Judge a token-endpoint reply: a reply flagged banned yields
/// `Banned` whatever else it carries; otherwise the token is handed
/// through, and a reply with no token at all is `MissingToken`.
pub fn evaluate_token_response(is_banned: Option<bool>, token: Option<String>) -> (r: TokenDecision)
    ensures
        is_banned matches Some(true) ==> r is Banned,
        !(is_banned matches Some(true)) ==> ({
            &&& token matches Some(t) ==> (r matches TokenDecision::Granted(tok) && tok == t)
            &&& token is None ==> r is MissingToken
        }),
{
    match is_banned {
        Some(true) => TokenDecision::Banned,
        _ => {
            match token {
                Some(t) => TokenDecision::Granted(t),
                None => TokenDecision::MissingToken,
            }
        },
    }
}

} // verus!
