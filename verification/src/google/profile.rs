//! The user profile reported from Google's user info.

use vstd::prelude::*;
use crate::json::{json_get, json_str_field, opt_string_view, str_or, string_or, Json, JsonValue};

verus! {

broadcast use vstd::string::group_string_axioms;

/// A Google user profile.
pub struct ProfilePayload {
    pub sub: String,
    pub email: String,
    pub email_verified: bool,
    pub name: String,
    pub picture: String,
}

/// `Value::as_bool` of a member, `false` when absent or not a boolean.
pub open spec fn bool_field(v: Json, key: Seq<char>) -> bool {
    match json_get(v, key) {
        Some(Json::Bool(b)) => b,
        _ => false,
    }
}

/// Reads the profile from Google's user info: each text field is the string of
/// that member or empty, `email_verified` is the boolean of that member or false.
pub fn profile_from_user_info(user: &JsonValue) -> (p: ProfilePayload)
    ensures
        p.sub@ == str_or(json_str_field(user@, "sub"@), ""@),
        p.email@ == str_or(json_str_field(user@, "email"@), ""@),
        p.email_verified == bool_field(user@, "email_verified"@),
        p.name@ == str_or(json_str_field(user@, "name"@), ""@),
        p.picture@ == str_or(json_str_field(user@, "picture"@), ""@),
{
    let email_verified = match user.get("email_verified") {
        Some(JsonValue::Bool(b)) => *b,
        _ => false,
    };
    ProfilePayload {
        sub: string_or(user.str_field("sub"), ""),
        email: string_or(user.str_field("email"), ""),
        email_verified,
        name: string_or(user.str_field("name"), ""),
        picture: string_or(user.str_field("picture"), ""),
    }
}

} // verus!
