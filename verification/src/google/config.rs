//! Google client settings and request payloads.

use vstd::prelude::*;

verus! {

/// The OAuth client of this backend.
pub struct GoogleConfig {
    pub client_id: String,
    pub client_secret: String,
}

/// A request carrying a Google access token.
pub struct AccessTokenPayload {
    pub access_token: String,
}

/// A request carrying a Google refresh token.
pub struct RefreshTokenPayload {
    pub refresh_token: String,
}

/// An authorization code exchange request (PKCE).
pub struct GenerateTokenPayload {
    pub code: String,
    pub code_verifier: String,
    pub redirect_uri: String,
}

/// The Google client settings from the environment: present only when
/// `ENABLE_EXTERNAL_SYSTEM_GOOGLE` is `true` and both the client id and the
/// client secret are set.
pub fn google_config_from_settings(
    enabled: Option<String>,
    client_id: Option<String>,
    client_secret: Option<String>,
) -> (r: Option<GoogleConfig>)
    ensures
        r is Some <==> (enabled matches Some(e) && e@ == "true"@ && client_id is Some && client_secret is Some),
        r matches Some(c) ==> c.client_id == client_id->0 && c.client_secret == client_secret->0,
{
    match enabled {
        Some(e) => {
            if !crate::text::str_eq(e.as_str(), "true") {
                return None;
            }
        },
        None => {
            return None;
        },
    }
    match (client_id, client_secret) {
        (Some(client_id), Some(client_secret)) => Some(GoogleConfig { client_id, client_secret }),
        _ => None,
    }
}

} // verus!
