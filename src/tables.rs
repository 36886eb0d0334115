//! Trusted boundary to the concurrent maps of `dashmap`.
//!
//! Each table kind has a name for what it holds and one wrapper per
//! `DashMap` method that the library calls. `DashMap` mutates through `&self`;
//! the wrappers take `&mut` so that every change of contents is visible to
//! the verifier.
use vstd::prelude::*;
use dashmap::DashMap;
use crate::auth::{Jwk, JwkView};
use crate::store::{MetaView, WsMetadata};

verus! {

#[verifier::external_type_specification]
#[verifier::external_body]
#[verifier::reject_recursive_types(K)]
#[verifier::reject_recursive_types(V)]
#[verifier::reject_recursive_types(S)]
pub struct ExDashMap<K, V, S>(DashMap<K, V, S>);

/// Room id to member connection ids.
pub type RoomTable = DashMap<String, Vec<u128>>;

/// Connection id to connection metadata.
pub type MetaTable = DashMap<u128, WsMetadata>;

/// What a room table holds: room id to its member connection ids.
pub uninterp spec fn room_table(m: RoomTable) -> Map<Seq<char>, Seq<u128>>;

/// What a metadata table holds: connection id to its metadata.
pub uninterp spec fn meta_table(m: MetaTable) -> Map<u128, MetaView>;

/// Relies on DashMap::new: a new map is empty.
#[verifier::external_body]
pub(crate) fn rooms_new() -> (r: RoomTable)
    ensures
        room_table(r).dom().is_empty(),
{
    DashMap::new()
}

/// Relies on DashMap::get: the value stored under the key, if any (cloned out).
#[verifier::external_body]
pub(crate) fn rooms_get(m: &RoomTable, k: &String) -> (r: Option<Vec<u128>>)
    ensures
        r is Some <==> room_table(*m).contains_key(k@),
        r matches Some(v) ==> v@ == room_table(*m)[k@],
{
    m.get(k).map(|e| e.value().clone())
}

/// Relies on DashMap::insert: the key maps to the value afterwards, other keys are untouched.
#[verifier::external_body]
pub(crate) fn rooms_insert(m: &mut RoomTable, k: String, v: Vec<u128>)
    ensures
        room_table(*final(m)) == room_table(*old(m)).insert(k@, v@),
{
    m.insert(k, v);
}

/// Relies on DashMap::remove: the key is absent afterwards, other keys are untouched.
#[verifier::external_body]
pub(crate) fn rooms_remove(m: &mut RoomTable, k: &String)
    ensures
        room_table(*final(m)) == room_table(*old(m)).remove(k@),
{
    m.remove(k);
}

/// Relies on DashMap::new: a new map is empty.
#[verifier::external_body]
pub(crate) fn meta_new() -> (r: MetaTable)
    ensures
        meta_table(r).dom().is_empty(),
{
    DashMap::new()
}

/// Relies on DashMap::get: the value stored under the key, if any (cloned out).
#[verifier::external_body]
pub(crate) fn meta_get(m: &MetaTable, k: u128) -> (r: Option<WsMetadata>)
    ensures
        r is Some <==> meta_table(*m).contains_key(k),
        r matches Some(v) ==> v@ == meta_table(*m)[k],
{
    m.get(&k).map(|e| e.value().clone())
}

/// Relies on DashMap::insert: the key maps to the value afterwards, other keys are untouched.
#[verifier::external_body]
pub(crate) fn meta_insert(m: &mut MetaTable, k: u128, v: WsMetadata)
    ensures
        meta_table(*final(m)) == meta_table(*old(m)).insert(k, v@),
{
    m.insert(k, v);
}

/// Relies on DashMap::remove: the key is absent afterwards, other keys are untouched.
#[verifier::external_body]
pub(crate) fn meta_remove(m: &mut MetaTable, k: u128)
    ensures
        meta_table(*final(m)) == meta_table(*old(m)).remove(k),
{
    m.remove(&k);
}

/// Key id to published signing key.
pub type JwkTable = DashMap<String, Jwk>;

/// What a key table holds: key id to the key published under it.
pub uninterp spec fn jwk_table(m: JwkTable) -> Map<Seq<char>, JwkView>;

/// Relies on DashMap::new: a new map is empty.
#[verifier::external_body]
pub(crate) fn jwks_new() -> (r: JwkTable)
    ensures
        jwk_table(r).dom().is_empty(),
{
    DashMap::new()
}

/// Relies on DashMap::get: the value stored under the key, if any (cloned out).
#[verifier::external_body]
pub(crate) fn jwks_get(m: &JwkTable, k: &str) -> (r: Option<Jwk>)
    ensures
        r is Some <==> jwk_table(*m).contains_key(k@),
        r matches Some(v) ==> v@ == jwk_table(*m)[k@],
{
    m.get(k).map(|e| e.value().clone())
}

/// Relies on DashMap::insert: the key maps to the value afterwards, other keys are untouched.
#[verifier::external_body]
pub(crate) fn jwks_insert(m: &mut JwkTable, k: String, v: Jwk)
    ensures
        jwk_table(*final(m)) == jwk_table(*old(m)).insert(k@, v@),
{
    m.insert(k, v);
}

/// Relies on DashMap::clear: no key is left.
#[verifier::external_body]
pub(crate) fn jwks_clear(m: &mut JwkTable)
    ensures
        jwk_table(*final(m)).dom().is_empty(),
{
    m.clear();
}

/// Connection id to the id of its peer session.
pub type SessionTable = DashMap<u128, u64>;

/// What a session table holds: connection id to session id.
pub uninterp spec fn session_table(m: SessionTable) -> Map<u128, u64>;

/// Relies on DashMap::new: a new map is empty.
#[verifier::external_body]
pub(crate) fn sessions_new() -> (r: SessionTable)
    ensures
        session_table(r).dom().is_empty(),
{
    DashMap::new()
}

/// Relies on DashMap::get: the value stored under the key, if any.
#[verifier::external_body]
pub(crate) fn sessions_get(m: &SessionTable, k: u128) -> (r: Option<u64>)
    ensures
        r is Some <==> session_table(*m).contains_key(k),
        r matches Some(v) ==> v == session_table(*m)[k],
{
    m.get(&k).map(|e| *e.value())
}

/// Relies on DashMap::insert: the key maps to the value afterwards, other keys are untouched.
#[verifier::external_body]
pub(crate) fn sessions_insert(m: &mut SessionTable, k: u128, v: u64)
    ensures
        session_table(*final(m)) == session_table(*old(m)).insert(k, v),
{
    m.insert(k, v);
}

/// Relies on DashMap::remove: the key is absent afterwards, other keys are untouched.
#[verifier::external_body]
pub(crate) fn sessions_remove(m: &mut SessionTable, k: u128)
    ensures
        session_table(*final(m)) == session_table(*old(m)).remove(k),
{
    m.remove(&k);
}

#[verifier::external_type_specification]
#[verifier::external_body]
#[verifier::reject_recursive_types(T)]
pub struct ExSender<T>(tokio::sync::mpsc::Sender<T>);

/// Connection id to the sending end of its outbound channel.
pub type SinkTable = DashMap<u128, tokio::sync::mpsc::Sender<String>>;

/// What a sink table holds: the ids of the registered connections.
pub uninterp spec fn sink_ids(m: SinkTable) -> Set<u128>;

/// Relies on DashMap::new: a new map is empty.
#[verifier::external_body]
pub(crate) fn sinks_new() -> (r: SinkTable)
    ensures
        sink_ids(r).is_empty(),
{
    DashMap::new()
}

/// Relies on DashMap::get: the sender stored under the key, if any (a clone
/// of it, which feeds the same channel).
#[verifier::external_body]
pub(crate) fn sinks_get(m: &SinkTable, k: u128) -> (r: Option<tokio::sync::mpsc::Sender<String>>)
    ensures
        r is Some <==> sink_ids(*m).contains(k),
{
    m.get(&k).map(|e| e.value().clone())
}

/// Relies on DashMap::insert: the key is present afterwards (its sender
/// replaced), other keys are untouched.
#[verifier::external_body]
pub(crate) fn sinks_insert(m: &mut SinkTable, k: u128, v: tokio::sync::mpsc::Sender<String>)
    ensures
        sink_ids(*final(m)) == sink_ids(*old(m)).insert(k),
{
    m.insert(k, v);
}

/// Relies on DashMap::remove: the key is absent afterwards, other keys are untouched.
#[verifier::external_body]
pub(crate) fn sinks_remove(m: &mut SinkTable, k: u128)
    ensures
        sink_ids(*final(m)) == sink_ids(*old(m)).remove(k),
{
    m.remove(&k);
}

} // verus!
