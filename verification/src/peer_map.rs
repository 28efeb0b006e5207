//! The concurrent map of connected peers, `dashmap::DashMap`, as the server's
//! logic sees it: a finite map from peer id to the state recorded for it.
use dashmap::DashMap;
use std::collections::hash_map::RandomState;
use vstd::prelude::*;

use crate::handler::{PeerState, PeerStateView};

verus! {

/// `dashmap::DashMap`, declared so that it can stand in signatures; its
/// contents are known only through `peer_entries` below.
#[verifier::external_type_specification]
#[verifier::external_body]
#[verifier::reject_recursive_types(K)]
#[verifier::reject_recursive_types(V)]
#[verifier::reject_recursive_types(S)]
pub struct ExDashMap<K, V, S>(DashMap<K, V, S>);

/// The map of connected peers, keyed by peer id.
pub type PeerMap = DashMap<String, PeerState, RandomState>;

/// What a map of connected peers holds: each peer id with the state recorded for it.
pub uninterp spec fn peer_entries(m: PeerMap) -> Map<Seq<char>, PeerStateView>;

/// `DashMap::new`: a map that holds nothing.
#[verifier::external_body]
pub(crate) fn peer_map_new() -> (map: PeerMap)
    ensures
        peer_entries(map).dom().is_empty(),
{
    DashMap::new()
}

/// `DashMap::insert`: the map afterwards holds `value` under `key`, and nothing
/// else changes; the value that `key` held before, if any, comes back.
#[verifier::external_body]
pub(crate) fn peer_map_insert(map: &mut PeerMap, key: String, value: PeerState) -> (previous: Option<PeerState>)
    ensures
        peer_entries(*final(map)) == peer_entries(*old(map)).insert(key@, value@),
        previous is Some <==> peer_entries(*old(map)).contains_key(key@),
        previous matches Some(p) ==> p@ == peer_entries(*old(map))[key@],
{
    map.insert(key, value)
}

/// `DashMap::get`, the entry copied out: the state held under `key`, if any.
#[verifier::external_body]
pub(crate) fn peer_map_get(map: &PeerMap, key: &String) -> (found: Option<PeerState>)
    ensures
        found is Some <==> peer_entries(*map).contains_key(key@),
        found matches Some(p) ==> p@ == peer_entries(*map)[key@],
{
    map.get(key).map(|entry| entry.value().duplicate())
}

/// `DashMap::remove`: the map afterwards holds nothing under `key`, and
/// nothing else changes; the removed key and state come back.
#[verifier::external_body]
pub(crate) fn peer_map_remove(map: &mut PeerMap, key: &String) -> (removed: Option<(String, PeerState)>)
    ensures
        peer_entries(*final(map)) == peer_entries(*old(map)).remove(key@),
        removed is Some <==> peer_entries(*old(map)).contains_key(key@),
        removed matches Some(kv) ==> kv.0@ == key@ && kv.1@ == peer_entries(*old(map))[key@],
{
    map.remove(key)
}

/// `DashMap::iter`, each entry copied out: every entry of the map exactly once,
/// in an order that the map does not promise.
#[verifier::external_body]
pub(crate) fn peer_map_entries(map: &PeerMap) -> (entries: Vec<(String, PeerState)>)
    ensures
        forall|i: int|
            0 <= i < entries.len() ==> peer_entries(*map).contains_key(#[trigger] entries@[i].0@)
                && peer_entries(*map)[entries@[i].0@] == entries@[i].1@,
        forall|k: Seq<char>|
            #[trigger] peer_entries(*map).contains_key(k) ==> exists|i: int|
                0 <= i < entries.len() && #[trigger] entries@[i].0@ == k,
        forall|i: int, j: int|
            0 <= i < j < entries.len() ==> #[trigger] entries@[i].0@ != #[trigger] entries@[j].0@,
{
    map.iter().map(|entry| (entry.key().clone(), entry.value().duplicate())).collect()
}

} // verus!
