//! Trusted boundary around the `dashmap` concurrent map that holds the
//! sessions of the server.
//!
//! The map is modelled as a map from players to their sessions. Nothing here
//! is proved: each function states what the `dashmap` method that it calls
//! does to that map. Every function that changes the map takes it by unique
//! reference, so that no reference into the map is held during a call.

use vstd::prelude::*;
use crate::network::ClientConnection;
use crate::types::PlayerId;

verus! {

/// `dashmap::DashMap`, carried as a value that cannot be looked into.
#[verifier::external_type_specification]
#[verifier::external_body]
#[verifier::reject_recursive_types(K)]
#[verifier::reject_recursive_types(V)]
#[verifier::reject_recursive_types(S)]
pub struct ExDashMap<K, V, S>(dashmap::DashMap<K, V, S>);

/// The sessions that a table holds, by player.
pub uninterp spec fn table_model(t: dashmap::DashMap<PlayerId, ClientConnection>) -> Map<
    PlayerId,
    ClientConnection,
>;

/// `dashmap::DashMap::new`: a table without sessions.
#[verifier::external_body]
pub(crate) fn table_new() -> (t: dashmap::DashMap<PlayerId, ClientConnection>)
    ensures
        table_model(t).dom() == Set::<PlayerId>::empty(),
{
    dashmap::DashMap::new()
}

/// `dashmap::DashMap::len`: the number of sessions.
#[verifier::external_body]
pub(crate) fn table_len(t: &dashmap::DashMap<PlayerId, ClientConnection>) -> (n: usize)
    requires
        table_model(*t).dom().finite(),
    ensures
        n == table_model(*t).dom().len(),
{
    t.len()
}

/// `dashmap::DashMap::contains_key`: whether a player has a session.
#[verifier::external_body]
pub(crate) fn table_contains(t: &dashmap::DashMap<PlayerId, ClientConnection>, id: PlayerId) -> (found:
    bool)
    ensures
        found == table_model(*t).contains_key(id),
{
    t.contains_key(&id)
}

/// `dashmap::DashMap::insert`: the player gets the session, in place of one
/// that it had, and no other session changes.
#[verifier::external_body]
pub(crate) fn table_insert(
    t: &mut dashmap::DashMap<PlayerId, ClientConnection>,
    id: PlayerId,
    session: ClientConnection,
)
    ensures
        table_model(*final(t)) == table_model(*old(t)).insert(id, session),
{
    let _ = t.insert(id, session);
}

/// `dashmap::DashMap::remove`: the session of the player leaves the table
/// and is handed out; without one nothing changes and nothing is handed out.
#[verifier::external_body]
pub(crate) fn table_remove(t: &mut dashmap::DashMap<PlayerId, ClientConnection>, id: PlayerId) -> (session:
    Option<ClientConnection>)
    ensures
        table_model(*final(t)) == table_model(*old(t)).remove(id),
        table_model(*old(t)).contains_key(id) ==> session == Some(table_model(*old(t))[id]),
        !table_model(*old(t)).contains_key(id) ==> session is None,
{
    t.remove(&id).map(|entry| entry.1)
}

/// `dashmap::DashMap::iter` with `RefMulti::key`: the players that have a
/// session, each once, in no stated order.
#[verifier::external_body]
pub(crate) fn table_keys(t: &dashmap::DashMap<PlayerId, ClientConnection>) -> (ids: Vec<PlayerId>)
    ensures
        ids@.no_duplicates(),
        ids@.to_set() == table_model(*t).dom(),
{
    t.iter().map(|entry| *entry.key()).collect()
}

} // verus!
