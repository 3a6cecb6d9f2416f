//! The Google client handle: its settings and a shared HTTP client.

use vstd::prelude::*;
use crate::google::config::GoogleConfig;

verus! {

#[verifier::external_type_specification]
#[verifier::external_body]
pub struct ExReqwestClient(reqwest::Client);

#[verifier::external_type_specification]
#[verifier::external_body]
pub struct ExAnyhowError(anyhow::Error);

/// `reqwest::Client::builder().build()`: a client with default settings, or
/// the error of setting it up (a TLS backend that cannot be initialized, or a
/// resolver that cannot load the system configuration), converted to
/// `anyhow::Error`. Which of the two comes back rests on the machine, so
/// nothing is stated of it.
#[verifier::external_body]
pub(crate) fn build_http_client() -> Result<reqwest::Client, anyhow::Error> {
    reqwest::Client::builder().build().map_err(anyhow::Error::from)
}

/// The handle through which the backend talks to Google.
pub struct GoogleClient {
    pub config: GoogleConfig,
    pub http_client: reqwest::Client,
}

impl GoogleClient {
    /// A client for these settings from the outcome of setting up its HTTP
    /// client: it succeeds exactly when that setup did, and then holds the
    /// settings and that HTTP client.
    pub fn from_http_client(config: GoogleConfig, http_client: Result<reqwest::Client, anyhow::Error>) -> (r: Result<
        GoogleClient,
        anyhow::Error,
    >)
        ensures
            r is Ok <==> http_client is Ok,
            r matches Ok(c) ==> c.config == config && (http_client matches Ok(h) && h == c.http_client),
    {
        match http_client {
            Ok(h) => Ok(GoogleClient { config, http_client: h }),
            Err(e) => Err(e),
        }
    }

    /// A client for these settings; it fails when the HTTP client cannot be
    /// set up on this machine, and otherwise holds the settings.
    pub fn new(config: GoogleConfig) -> (r: Result<GoogleClient, anyhow::Error>)
        ensures
            r matches Ok(c) ==> c.config == config,
    {
        let http_client = build_http_client();
        GoogleClient::from_http_client(config, http_client)
    }
}

} // verus!
