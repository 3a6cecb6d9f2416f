//! Administration of the token table: add, delete, update and list tokens.

use vstd::prelude::*;
use dashmap::DashMap;
use crate::authz::{authz_decision, grants, AuthzOutcome};
use crate::tokens::{table_entries, table_insert, table_remove, table_replace, token_table};

verus! {

broadcast use vstd::string::group_string_axioms;

/// A token together with its permissions.
pub struct TokenPayload {
    pub token: String,
    pub permissions: Vec<String>,
}

/// New permissions for an existing token.
pub struct PermissionsPayload {
    pub permissions: Vec<String>,
}

/// The token named in a request path.
pub struct TokenPath {
    token: String,
}

/// The message given when a token is empty.
pub open spec fn empty_token_message() -> Seq<char> {
    "token: Token cannot be empty"@
}

/// The outcome of an administration request: a status and a message on
/// success, a status and a message on failure.
pub type AdminResult = Result<(u16, &'static str), (u16, String)>;

/// `r` is a success with this status and message.
pub open spec fn succeeds_with(r: AdminResult, status: u16, message: Seq<char>) -> bool {
    r matches Ok((s, m)) && s == status && m@ == message
}

/// `r` is a failure with this status and message.
pub open spec fn fails_with(r: AdminResult, status: u16, message: Seq<char>) -> bool {
    r matches Err((s, m)) && s == status && m@ == message
}

fn empty_token_error() -> (m: String)
    ensures
        m@ == empty_token_message(),
{
    "token: Token cannot be empty".to_owned()
}

impl TokenPayload {
    /// A token must not be empty.
    pub fn validate(&self) -> (r: Result<(), String>)
        ensures
            r is Ok <==> self.token@.len() > 0,
            r matches Err(m) ==> m@ == empty_token_message(),
    {
        if self.token.as_str().is_empty() {
            Err(empty_token_error())
        } else {
            Ok(())
        }
    }
}

impl PermissionsPayload {
    /// Any list of permissions is accepted.
    pub fn validate(&self) -> (r: Result<(), String>)
        ensures
            r is Ok,
    {
        Ok(())
    }
}

impl TokenPath {
    pub fn new(token: String) -> (p: TokenPath)
        ensures
            p.token() == token,
    {
        TokenPath { token }
    }

    pub closed spec fn token(&self) -> String {
        self.token
    }

    /// The token in a path must not be empty.
    pub fn validate(&self) -> (r: Result<(), String>)
        ensures
            r is Ok <==> self.token()@.len() > 0,
            r matches Err(m) ==> m@ == empty_token_message(),
    {
        if self.token.as_str().is_empty() {
            Err(empty_token_error())
        } else {
            Ok(())
        }
    }
}

/// Adds a token, or replaces the permissions of one already there.
pub fn add_token(tokens: &mut DashMap<String, Vec<String>>, payload: TokenPayload) -> (r: AdminResult)
    ensures
        payload.token@.len() == 0 ==> fails_with(r, 400, empty_token_message()),
        payload.token@.len() == 0 ==> token_table(*final(tokens)) == token_table(*old(tokens)),
        payload.token@.len() > 0 ==> succeeds_with(r, 201, "Token created"@),
        payload.token@.len() > 0 ==> token_table(*final(tokens)) == token_table(*old(tokens)).insert(
            payload.token@,
            payload.permissions.deep_view(),
        ),
{
    if let Err(e) = payload.validate() {
        return Err((400, e));
    }
    let _ = table_insert(tokens, payload.token, payload.permissions);
    Ok((201, "Token created"))
}

/// Deletes a token.
pub fn delete_token(tokens: &mut DashMap<String, Vec<String>>, path: TokenPath) -> (r: AdminResult)
    ensures
        path.token()@.len() == 0 ==> fails_with(r, 400, empty_token_message()),
        path.token()@.len() > 0 && token_table(*old(tokens)).contains_key(path.token()@) ==> succeeds_with(r, 200, "Token deleted"@),
        path.token()@.len() > 0 && !token_table(*old(tokens)).contains_key(path.token()@) ==> fails_with(r, 404, "Token not found"@),
        path.token()@.len() > 0 ==> token_table(*final(tokens)) == token_table(*old(tokens)).remove(
            path.token()@,
        ),
        path.token()@.len() == 0 ==> token_table(*final(tokens)) == token_table(*old(tokens)),
{
    if let Err(e) = path.validate() {
        return Err((400, e));
    }
    match table_remove(tokens, path.token.as_str()) {
        Some(_) => Ok((200, "Token deleted")),
        None => Err((404, "Token not found".to_owned())),
    }
}

/// Replaces the permissions of an existing token.
pub fn update_token(
    tokens: &mut DashMap<String, Vec<String>>,
    path: TokenPath,
    payload: PermissionsPayload,
) -> (r: AdminResult)
    ensures
        path.token()@.len() == 0 ==> fails_with(r, 400, empty_token_message()),
        path.token()@.len() > 0 && token_table(*old(tokens)).contains_key(path.token()@) ==> succeeds_with(r, 200, "Token updated"@),
        path.token()@.len() > 0 && token_table(*old(tokens)).contains_key(path.token()@) ==> token_table(
            *final(tokens),
        ) == token_table(*old(tokens)).insert(path.token()@, payload.permissions.deep_view()),
        path.token()@.len() > 0 && !token_table(*old(tokens)).contains_key(path.token()@) ==> fails_with(r, 404, "Token not found"@),
        !(path.token()@.len() > 0 && token_table(*old(tokens)).contains_key(path.token()@)) ==> token_table(
            *final(tokens),
        ) == token_table(*old(tokens)),
{
    if let Err(e) = path.validate() {
        return Err((400, e));
    }
    if let Err(e) = payload.validate() {
        return Err((400, e));
    }
    if table_replace(tokens, path.token.as_str(), payload.permissions) {
        Ok((200, "Token updated"))
    } else {
        Err((404, "Token not found".to_owned()))
    }
}

/// Every token in the table with its permissions, each token once.
pub fn list_tokens(tokens: &mut DashMap<String, Vec<String>>) -> (r: Vec<TokenPayload>)
    ensures
        token_table(*final(tokens)) == token_table(*old(tokens)),
        forall|i: int|
            0 <= i < r@.len() ==> token_table(*old(tokens)).contains_key(#[trigger] r@[i].token@)
                && token_table(*old(tokens))[r@[i].token@] == r@[i].permissions.deep_view(),
        forall|i: int, j: int| 0 <= i < j < r@.len() ==> #[trigger] r@[i].token@ != #[trigger] r@[j].token@,
        forall|k: Seq<char>|
            token_table(*old(tokens)).contains_key(k) ==> exists|i: int|
                0 <= i < r@.len() && #[trigger] r@[i].token@ == k,
{
    let entries = table_entries(tokens);
    let mut r: Vec<TokenPayload> = Vec::new();
    let mut i: usize = 0;
    while i < entries.len()
        invariant
            i <= entries@.len(),
            r@.len() == i,
            forall|k: int|
                0 <= k < i ==> #[trigger] r@[k].token@ == entries@[k].0@ && r@[k].permissions.deep_view()
                    == entries@[k].1.deep_view(),
        decreases entries.len() - i,
    {
        let token = entries[i].0.clone();
        let permissions = entries[i].1.clone();
        proof {
            assert(permissions.deep_view() =~= entries@[i as int].1.deep_view()) by {
                assert forall|k: int| 0 <= k < permissions@.len() implies permissions.deep_view()[k]
                    == entries@[i as int].1.deep_view()[k] by {
                    assert(cloned::<String>(entries@[i as int].1@[k], permissions@[k]));
                }
            }
        }
        r.push(TokenPayload { token, permissions });
        i = i + 1;
    }
    proof {
        assert forall|k: Seq<char>| token_table(*old(tokens)).contains_key(k) implies exists|i: int|
            0 <= i < r@.len() && #[trigger] r@[i].token@ == k by {
            let j = choose|j: int| 0 <= j < entries@.len() && #[trigger] entries@[j].0@ == k;
            assert(r@[j].token@ == k);
        }
        assert forall|a: int, b: int| 0 <= a < b < r@.len() implies #[trigger] r@[a].token@
            != #[trigger] r@[b].token@ by {
            assert(r@[a].token@ == entries@[a].0@);
            assert(r@[b].token@ == entries@[b].0@);
        }
    }
    r
}

/// A token that has just been added is authorized on every route that requires
/// one of the permissions it was given.
pub proof fn law_added_token_is_authorized(
    table: Map<Seq<char>, Seq<Seq<char>>>,
    token: Seq<char>,
    permissions: Seq<Seq<char>>,
    required: Seq<Seq<char>>,
)
    requires
        grants(permissions, required),
    ensures
        authz_decision(Some(token), table.insert(token, permissions), required) == AuthzOutcome::Authorized,
{
}

/// A token that has just been deleted is refused as an invalid token.
pub proof fn law_deleted_token_is_invalid(
    table: Map<Seq<char>, Seq<Seq<char>>>,
    token: Seq<char>,
    required: Seq<Seq<char>>,
)
    ensures
        authz_decision(Some(token), table.remove(token), required) == AuthzOutcome::InvalidToken,
{
}

/// After an update, a token is authorized exactly by its new permissions.
pub proof fn law_updated_permissions_decide(
    table: Map<Seq<char>, Seq<Seq<char>>>,
    token: Seq<char>,
    permissions: Seq<Seq<char>>,
    required: Seq<Seq<char>>,
)
    ensures
        authz_decision(Some(token), table.insert(token, permissions), required) == (if grants(
            permissions,
            required,
        ) {
            AuthzOutcome::Authorized
        } else {
            AuthzOutcome::InsufficientPermissions
        }),
{
}

} // verus!
