//! The outside systems the backend is configured to use.

use vstd::prelude::*;
use std::sync::Arc;
use crate::google::client::{build_http_client, GoogleClient};
use crate::google::config::google_config_from_settings;

verus! {

broadcast use vstd::string::group_string_axioms;

/// The outside systems this backend talks to.
pub struct Clients {
    pub google: Option<Arc<GoogleClient>>,
}

/// The settings ask for Google: `ENABLE_EXTERNAL_SYSTEM_GOOGLE` is `true` and
/// the client id and secret are set.
pub open spec fn google_settings_ok(enabled: Option<String>, client_id: Option<String>, client_secret: Option<String>) -> bool {
    match enabled {
        Some(e) => e@ == "true"@ && client_id is Some && client_secret is Some,
        None => false,
    }
}

fn google_settings_given(enabled: &Option<String>, client_id: &Option<String>, client_secret: &Option<String>) -> (b: bool)
    ensures
        b == google_settings_ok(*enabled, *client_id, *client_secret),
{
    match enabled {
        Some(e) => crate::text::str_eq(e.as_str(), "true") && client_id.is_some() && client_secret.is_some(),
        None => false,
    }
}

impl Clients {
    /// No outside system.
    pub fn empty() -> (c: Clients)
        ensures
            c.google is None,
    {
        Clients { google: None }
    }

    /// The clients from the environment's settings and the outcome of setting
    /// up an HTTP client: Google exactly when the settings ask for it and the
    /// setup succeeded, with the client id and secret of the settings.
    pub fn from_settings_and_http_client(
        google_enabled: Option<String>,
        google_client_id: Option<String>,
        google_client_secret: Option<String>,
        http_client: Result<reqwest::Client, anyhow::Error>,
    ) -> (c: Clients)
        ensures
            c.google is Some <==> (google_settings_ok(google_enabled, google_client_id, google_client_secret)
                && http_client is Ok),
            c.google matches Some(g) ==> g.config.client_id == google_client_id->0
                && g.config.client_secret == google_client_secret->0,
    {
        match google_config_from_settings(google_enabled, google_client_id, google_client_secret) {
            Some(config) => match GoogleClient::from_http_client(config, http_client) {
                Ok(client) => Clients { google: Some(Arc::new(client)) },
                Err(_) => Clients { google: None },
            },
            None => Clients { google: None },
        }
    }

    /// The clients from the environment's settings: Google only when the
    /// settings ask for it, and then only when its HTTP client can be set up
    /// on this machine (which is tried only then).
    pub fn from_settings(
        google_enabled: Option<String>,
        google_client_id: Option<String>,
        google_client_secret: Option<String>,
    ) -> (c: Clients)
        ensures
            c.google is Some ==> google_settings_ok(google_enabled, google_client_id, google_client_secret),
            c.google matches Some(g) ==> g.config.client_id == google_client_id->0
                && g.config.client_secret == google_client_secret->0,
    {
        if google_settings_given(&google_enabled, &google_client_id, &google_client_secret) {
            let http_client = build_http_client();
            Clients::from_settings_and_http_client(google_enabled, google_client_id, google_client_secret, http_client)
        } else {
            Clients { google: None }
        }
    }
}

} // verus!
