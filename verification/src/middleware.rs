//! The guard in front of every request: the comparison of its API key.

use crate::failure::Failure;
use crate::secrets::{api_key_name, expected_api_key, lookup, secret_entries};
use shuttle_runtime::SecretStore;
use vstd::prelude::*;

verus! {

/// The verdict on a request that presents `header` as its `x-api-key`, taken
/// against the secrets in `entries`.
///
/// Without a configured key every request is refused, as a fault of the
/// configuration. With one, the request passes exactly when the header is
/// there and equals the key, character for character.
pub open spec fn auth_verdict(entries: Map<Seq<char>, Seq<char>>, header: Option<Seq<char>>)
    -> Result<(), Failure> {
    match lookup(entries, api_key_name()) {
        None => Err(Failure::MissingApiKey),
        Some(expected) => if header == Some(expected) {
            Ok(())
        } else {
            Err(Failure::Unauthorized)
        },
    }
}

/// Decides whether a request may pass. `header` is the value of the
/// request's `x-api-key` header, `None` where the request has none.
pub fn api_key_auth(store: &SecretStore, header: Option<&str>) -> (verdict: Result<(), Failure>)
    ensures
        verdict == auth_verdict(secret_entries(*store), header.deep_view()),
{
    match expected_api_key(store) {
        None => Err(Failure::MissingApiKey),
        Some(expected) => match header {
            Some(presented) => {
                let presented = presented.to_owned();
                if presented == expected {
                    Ok(())
                } else {
                    Err(Failure::Unauthorized)
                }
            },
            None => Err(Failure::Unauthorized),
        },
    }
}

} // verus!
