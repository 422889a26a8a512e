//! The transport-facing pieces the library can pin down: the default
//! headers every request must carry, and the validation of the
//! credential that the surrounding binary reads from the environment.

use vstd::prelude::*;
use crate::services::handlers::ClientError;

verus! {

/// The default headers of every outgoing request: the bearer credential
/// and the JSON content type. The surrounding binary installs exactly
/// these pairs on its HTTP client, so every round-trip carries them.
pub fn get_headers(token: &str) -> (r: Vec<(String, String)>)
    ensures
        r@.len() == 2,
        r@[0].0@ == "Authorization"@,
        r@[0].1@ == "Bearer "@ + token@,
        r@[1].0@ == "Content-Type"@,
        r@[1].1@ == "application/json"@,
{
    let mut auth = String::from_str("Bearer ");
    auth.append(token);
    let mut v: Vec<(String, String)> = Vec::new();
    v.push((String::from_str("Authorization"), auth));
    v.push((String::from_str("Content-Type"), String::from_str("application/json")));
    v
}

/// Accepts the credential read from the environment: a present, nonempty
/// token is returned unchanged, and anything else is a missing
/// credential, reported before any network traffic.
pub fn validate_credential(token: Option<String>) -> (r: Result<String, ClientError>)
    ensures
        token is None ==> r matches Err(ClientError::MissingCredential),
        token matches Some(t) ==> ((t@.len() > 0 ==> (r matches Ok(o) && o@ == t@)) && (t@.len()
            == 0 ==> r matches Err(ClientError::MissingCredential))),
{
    match token {
        Some(t) => {
            if t.as_str().is_empty() {
                Err(ClientError::MissingCredential)
            } else {
                Ok(t)
            }
        },
        None => Err(ClientError::MissingCredential),
    }
}

} // verus!
