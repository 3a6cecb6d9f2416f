//! The OAuth requests of the token routes: exchanging an authorization code
//! (with its PKCE verifier) for tokens, and a refresh token for an access token.

use vstd::prelude::*;
use crate::google::config::GoogleConfig;

verus! {

broadcast use vstd::string::group_string_axioms;

/// Google's OAuth token endpoint.
pub const TOKEN_URL: &'static str = "https://oauth2.googleapis.com/token";

/// Google's user info endpoint.
pub const USER_INFO_URL: &'static str = "https://www.googleapis.com/oauth2/v3/userinfo";

/// One form field.
pub open spec fn field_view(f: (String, String)) -> (Seq<char>, Seq<char>) {
    (f.0@, f.1@)
}

fn field(name: &str, value: &str) -> (f: (String, String))
    ensures
        f.0@ == name@,
        f.1@ == value@,
{
    (name.to_owned(), value.to_owned())
}

/// The form that exchanges an authorization code for tokens.
pub fn code_exchange_form(config: &GoogleConfig, code: &str, code_verifier: &str, redirect_uri: &str) -> (form: Vec<(String, String)>)
    ensures
        form@.map_values(|f: (String, String)| field_view(f)) == seq![
            ("client_id"@, config.client_id@),
            ("client_secret"@, config.client_secret@),
            ("code"@, code@),
            ("code_verifier"@, code_verifier@),
            ("grant_type"@, "authorization_code"@),
            ("redirect_uri"@, redirect_uri@),
        ],
{
    let form = vec![
        field("client_id", config.client_id.as_str()),
        field("client_secret", config.client_secret.as_str()),
        field("code", code),
        field("code_verifier", code_verifier),
        field("grant_type", "authorization_code"),
        field("redirect_uri", redirect_uri),
    ];
    assert(form@.map_values(|f: (String, String)| field_view(f)) =~= seq![
        ("client_id"@, config.client_id@),
        ("client_secret"@, config.client_secret@),
        ("code"@, code@),
        ("code_verifier"@, code_verifier@),
        ("grant_type"@, "authorization_code"@),
        ("redirect_uri"@, redirect_uri@),
    ]);
    form
}

/// The form that exchanges a refresh token for an access token.
pub fn refresh_form(config: &GoogleConfig, refresh_token: &str) -> (form: Vec<(String, String)>)
    ensures
        form@.map_values(|f: (String, String)| field_view(f)) == seq![
            ("client_id"@, config.client_id@),
            ("client_secret"@, config.client_secret@),
            ("grant_type"@, "refresh_token"@),
            ("refresh_token"@, refresh_token@),
        ],
{
    let form = vec![
        field("client_id", config.client_id.as_str()),
        field("client_secret", config.client_secret.as_str()),
        field("grant_type", "refresh_token"),
        field("refresh_token", refresh_token),
    ];
    assert(form@.map_values(|f: (String, String)| field_view(f)) =~= seq![
        ("client_id"@, config.client_id@),
        ("client_secret"@, config.client_secret@),
        ("grant_type"@, "refresh_token"@),
        ("refresh_token"@, refresh_token@),
    ]);
    form
}

} // verus!
