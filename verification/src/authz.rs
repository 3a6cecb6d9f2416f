//! Authorization of a request by its bearer token.

use vstd::prelude::*;
use dashmap::DashMap;
use crate::tokens::{table_get, token_table};

verus! {

broadcast use vstd::string::group_string_axioms;

/// The character sequences of a list of strings.
pub open spec fn string_views(s: Seq<String>) -> Seq<Seq<char>> {
    s.map_values(|x: String| x@)
}

/// The answer of the authorization check to one request.
#[derive(PartialEq, Eq, Structural, Debug, Clone, Copy)]
pub enum AuthzOutcome {
    /// The request goes on to its handler.
    Authorized,
    /// No bearer token was sent.
    MissingAuthorization,
    /// The bearer token is not in the token table.
    InvalidToken,
    /// The token holds none of the permissions the route requires.
    InsufficientPermissions,
}

/// A token grants access when it holds at least one of the required permissions.
pub open spec fn grants(held: Seq<Seq<char>>, required: Seq<Seq<char>>) -> bool {
    exists|i: int| 0 <= i < required.len() && held.contains(#[trigger] required[i])
}

/// The decision for a request that carries `bearer` (if any), against `table`,
/// on a route that requires one of `required`.
pub open spec fn authz_decision(
    bearer: Option<Seq<char>>,
    table: Map<Seq<char>, Seq<Seq<char>>>,
    required: Seq<Seq<char>>,
) -> AuthzOutcome {
    match bearer {
        None => AuthzOutcome::MissingAuthorization,
        Some(token) => if !table.contains_key(token) {
            AuthzOutcome::InvalidToken
        } else if grants(table[token], required) {
            AuthzOutcome::Authorized
        } else {
            AuthzOutcome::InsufficientPermissions
        },
    }
}

pub open spec fn opt_str_view(s: Option<&str>) -> Option<Seq<char>> {
    match s {
        Some(x) => Some(x@),
        None => None,
    }
}

/// Whether `held` contains at least one of `required`.
pub fn holds_any(held: &Vec<String>, required: &[String]) -> (r: bool)
    ensures
        r == grants(held.deep_view(), string_views(required@)),
{
    let ghost req = string_views(required@);
    let mut i: usize = 0;
    while i < required.len()
        invariant
            i <= required@.len(),
            req == string_views(required@),
            forall|k: int| 0 <= k < i ==> !held.deep_view().contains(#[trigger] req[k]),
        decreases required.len() - i,
    {
        let mut j: usize = 0;
        while j < held.len()
            invariant
                i < required@.len(),
                j <= held@.len(),
                req == string_views(required@),
                forall|k: int| 0 <= k < i ==> !held.deep_view().contains(#[trigger] req[k]),
                forall|k: int| 0 <= k < j ==> held@[k]@ != required@[i as int]@,
            decreases held.len() - j,
        {
            if held[j] == required[i] {
                assert(held.deep_view()[j as int] == req[i as int]);
                return true;
            }
            j = j + 1;
        }
        assert(!held.deep_view().contains(req[i as int])) by {
            if held.deep_view().contains(req[i as int]) {
                let k = choose|k: int| 0 <= k < held.deep_view().len() && held.deep_view()[k] == req[i as int];
                assert(held@[k]@ == required@[i as int]@);
            }
        }
        i = i + 1;
    }
    false
}

/// Decides whether a request with bearer token `bearer` may reach a route that
/// requires one of `required`.
pub fn authorize(
    tokens: &mut DashMap<String, Vec<String>>,
    bearer: Option<&str>,
    required: &[String],
) -> (outcome: AuthzOutcome)
    ensures
        token_table(*final(tokens)) == token_table(*old(tokens)),
        outcome == authz_decision(opt_str_view(bearer), token_table(*old(tokens)), string_views(required@)),
{
    match bearer {
        None => AuthzOutcome::MissingAuthorization,
        Some(token) => match table_get(tokens, token) {
            None => AuthzOutcome::InvalidToken,
            Some(held) => if holds_any(&held, required) {
                AuthzOutcome::Authorized
            } else {
                AuthzOutcome::InsufficientPermissions
            },
        },
    }
}

impl AuthzOutcome {
    /// The HTTP status and body with which a request is turned away; `None` when it may go on.
    pub fn rejection(&self) -> (r: Option<(u16, &'static str)>)
        ensures
            match *self {
                AuthzOutcome::Authorized => r is None,
                AuthzOutcome::MissingAuthorization => r matches Some((s, m)) && s == 401 && m@
                    == "Missing authorization header"@,
                AuthzOutcome::InvalidToken => r matches Some((s, m)) && s == 401 && m@
                    == "Invalid token"@,
                AuthzOutcome::InsufficientPermissions => r matches Some((s, m)) && s == 403 && m@
                    == "Insufficient permissions"@,
            },
    {
        match self {
            AuthzOutcome::Authorized => None,
            AuthzOutcome::MissingAuthorization => Some((401, "Missing authorization header")),
            AuthzOutcome::InvalidToken => Some((401, "Invalid token")),
            AuthzOutcome::InsufficientPermissions => Some((403, "Insufficient permissions")),
        }
    }
}

} // verus!
