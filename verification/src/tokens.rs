//! The table of bearer tokens and their permissions, kept in a `DashMap`.
//!
//! `DashMap` changes its contents through shared references; every function
//! here takes the map by `&mut`, so that nothing else can touch it during the call.

use vstd::prelude::*;
use dashmap::DashMap;

verus! {

#[verifier::external_type_specification]
#[verifier::external_body]
#[verifier::reject_recursive_types(K)]
#[verifier::reject_recursive_types(V)]
#[verifier::reject_recursive_types(S)]
pub struct ExDashMap<K, V, S>(DashMap<K, V, S>);

/// The contents of a token table: each token with its list of permissions.
pub uninterp spec fn token_table(m: DashMap<String, Vec<String>>) -> Map<Seq<char>, Seq<Seq<char>>>;

/// `DashMap::insert`: maps `token` to `permissions` and hands back the list it replaced.
#[verifier::external_body]
pub(crate) fn table_insert(
    m: &mut DashMap<String, Vec<String>>,
    token: String,
    permissions: Vec<String>,
) -> (previous: Option<Vec<String>>)
    ensures
        token_table(*final(m)) == token_table(*old(m)).insert(token@, permissions.deep_view()),
        previous is Some <==> token_table(*old(m)).contains_key(token@),
        previous matches Some(p) ==> p.deep_view() == token_table(*old(m))[token@],
{
    m.insert(token, permissions)
}

/// `DashMap::remove`: takes `token` out of the table and hands back its entry.
#[verifier::external_body]
pub(crate) fn table_remove(m: &mut DashMap<String, Vec<String>>, token: &str) -> (removed: Option<(String, Vec<String>)>)
    ensures
        token_table(*final(m)) == token_table(*old(m)).remove(token@),
        removed is Some <==> token_table(*old(m)).contains_key(token@),
        removed matches Some((k, p)) ==> k@ == token@ && p.deep_view() == token_table(*old(m))[token@],
{
    m.remove(token)
}

/// `DashMap::get`, cloning the permissions found.
#[verifier::external_body]
pub(crate) fn table_get(m: &mut DashMap<String, Vec<String>>, token: &str) -> (permissions: Option<Vec<String>>)
    ensures
        token_table(*final(m)) == token_table(*old(m)),
        permissions is Some <==> token_table(*old(m)).contains_key(token@),
        permissions matches Some(p) ==> p.deep_view() == token_table(*old(m))[token@],
{
    m.get(token).map(|entry| entry.value().clone())
}

/// `DashMap::get_mut`: replaces the permissions of a token that is present;
/// reports whether it was.
#[verifier::external_body]
pub(crate) fn table_replace(
    m: &mut DashMap<String, Vec<String>>,
    token: &str,
    permissions: Vec<String>,
) -> (found: bool)
    ensures
        found == token_table(*old(m)).contains_key(token@),
        found ==> token_table(*final(m)) == token_table(*old(m)).insert(token@, permissions.deep_view()),
        !found ==> token_table(*final(m)) == token_table(*old(m)),
{
    match m.get_mut(token) {
        Some(mut entry) => {
            *entry = permissions;
            true
        },
        None => false,
    }
}

/// `DashMap::iter`: every entry of the table, each token once, in no stated order.
#[verifier::external_body]
pub(crate) fn table_entries(m: &mut DashMap<String, Vec<String>>) -> (entries: Vec<(String, Vec<String>)>)
    ensures
        token_table(*final(m)) == token_table(*old(m)),
        forall|i: int|
            0 <= i < entries@.len() ==> token_table(*old(m)).contains_key(#[trigger] entries@[i].0@)
                && token_table(*old(m))[entries@[i].0@] == entries@[i].1.deep_view(),
        forall|i: int, j: int|
            0 <= i < j < entries@.len() ==> #[trigger] entries@[i].0@ != #[trigger] entries@[j].0@,
        forall|k: Seq<char>|
            token_table(*old(m)).contains_key(k) ==> exists|i: int|
                0 <= i < entries@.len() && #[trigger] entries@[i].0@ == k,
{
    m.iter().map(|entry| (entry.key().clone(), entry.value().clone())).collect()
}

} // verus!
