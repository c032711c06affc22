//! The concurrent maps of the relay: `dashmap::DashMap`, keyed by byte
//! strings, reached through the items below. Each map is named by what it
//! holds, with keys and values taken by their bytes.
//!
//! A `DashMap` locks one shard per call. Each function here makes one call
//! and holds no reference into the map afterwards, so none can deadlock.

use vstd::prelude::*;
use dashmap::DashMap;

verus! {

/// `dashmap::DashMap`, the sharded concurrent hash map.
#[verifier::external_type_specification]
#[verifier::external_body]
#[verifier::reject_recursive_types(K)]
#[verifier::reject_recursive_types(V)]
#[verifier::reject_recursive_types(S)]
pub struct ExDashMap<K, V, S>(DashMap<K, V, S>);

/// The bytes of each byte string of a list.
pub open spec fn views_of(v: Seq<Vec<u8>>) -> Seq<Seq<u8>> {
    v.map_values(|x: Vec<u8>| x@)
}

/// What a table of topics holds: each topic's subscribers, in the order
/// the table keeps them.
pub uninterp spec fn topic_table(m: DashMap<Vec<u8>, Vec<Vec<u8>>>) -> Map<Seq<u8>, Seq<Seq<u8>>>;

/// What a table of connections holds: each id's connection id.
pub uninterp spec fn id_table(m: DashMap<Vec<u8>, Vec<u8>>) -> Map<Seq<u8>, Seq<u8>>;

/// Calls `DashMap::new`: an empty table of topics.
#[verifier::external_body]
pub(crate) fn new_topic_table() -> (m: DashMap<Vec<u8>, Vec<Vec<u8>>>)
    ensures
        (topic_table(m) == Map::<Seq<u8>, Seq<Seq<u8>>>::empty()),
{
    DashMap::new()
}

/// Calls `DashMap::get` and copies out the subscribers of a topic.
#[verifier::external_body]
pub(crate) fn topic_members(m: &DashMap<Vec<u8>, Vec<Vec<u8>>>, topic: &[u8]) -> (r: Option<Vec<Vec<u8>>>)
    ensures
        match r {
            Some(v) => topic_table(*m).contains_key(topic@) && views_of(v@) == topic_table(*m)[topic@],
            None => !topic_table(*m).contains_key(topic@),
        },
{
    m.get(topic).map(|entry| entry.value().clone())
}

/// Calls `DashMap::insert`: the topic now has exactly these subscribers.
#[verifier::external_body]
pub(crate) fn set_topic_members(m: &mut DashMap<Vec<u8>, Vec<Vec<u8>>>, topic: Vec<u8>, members: Vec<Vec<u8>>)
    ensures
        topic_table(*final(m)) == topic_table(*old(m)).insert(topic@, views_of(members@)),
{
    m.insert(topic, members);
}

/// Calls `DashMap::remove`: the topic is gone from the table.
#[verifier::external_body]
pub(crate) fn remove_topic(m: &mut DashMap<Vec<u8>, Vec<Vec<u8>>>, topic: &[u8])
    ensures
        topic_table(*final(m)) == topic_table(*old(m)).remove(topic@),
{
    m.remove(topic);
}

/// Calls `DashMap::iter` and copies out each topic once, in the order of
/// the shards, which nothing here depends on.
#[verifier::external_body]
pub(crate) fn topic_keys(m: &DashMap<Vec<u8>, Vec<Vec<u8>>>) -> (keys: Vec<Vec<u8>>)
    ensures
        views_of(keys@).no_duplicates(),
        views_of(keys@).to_set() == topic_table(*m).dom(),
{
    m.iter().map(|entry| entry.key().clone()).collect()
}

/// Calls `DashMap::clone`: a table with the same topics and subscribers.
#[verifier::external_body]
pub(crate) fn clone_topic_table(m: &DashMap<Vec<u8>, Vec<Vec<u8>>>) -> (c: DashMap<Vec<u8>, Vec<Vec<u8>>>)
    ensures
        topic_table(c) == topic_table(*m),
{
    m.clone()
}

/// Calls `DashMap::new`: an empty table of connections.
#[verifier::external_body]
pub(crate) fn new_id_table() -> (m: DashMap<Vec<u8>, Vec<u8>>)
    ensures
        (id_table(m) == Map::<Seq<u8>, Seq<u8>>::empty()),
{
    DashMap::new()
}

/// Calls `DashMap::insert`: `id` now maps to `conn`.
#[verifier::external_body]
pub(crate) fn id_insert(m: &mut DashMap<Vec<u8>, Vec<u8>>, id: Vec<u8>, conn: Vec<u8>)
    ensures
        id_table(*final(m)) == id_table(*old(m)).insert(id@, conn@),
{
    m.insert(id, conn);
}

/// Calls `DashMap::remove`: `id` is gone from the table.
#[verifier::external_body]
pub(crate) fn id_remove(m: &mut DashMap<Vec<u8>, Vec<u8>>, id: &[u8])
    ensures
        id_table(*final(m)) == id_table(*old(m)).remove(id@),
{
    m.remove(id);
}

/// Calls `DashMap::contains_key`.
#[verifier::external_body]
pub(crate) fn id_contains(m: &DashMap<Vec<u8>, Vec<u8>>, id: &[u8]) -> (r: bool)
    ensures
        r == id_table(*m).contains_key(id@),
{
    m.contains_key(id)
}

/// Calls `DashMap::get` and copies out the connection id of `id`.
#[verifier::external_body]
pub(crate) fn id_get(m: &DashMap<Vec<u8>, Vec<u8>>, id: &[u8]) -> (r: Option<Vec<u8>>)
    ensures
        match r {
            Some(c) => id_table(*m).contains_key(id@) && c@ == id_table(*m)[id@],
            None => !id_table(*m).contains_key(id@),
        },
{
    m.get(id).map(|entry| entry.value().clone())
}

/// Calls `DashMap::iter` and copies out each id with its connection id, each
/// id once, in the order of the shards, which nothing here depends on.
#[verifier::external_body]
pub(crate) fn id_entries(m: &DashMap<Vec<u8>, Vec<u8>>) -> (entries: Vec<(Vec<u8>, Vec<u8>)>)
    ensures
        forall|i: int| 0 <= i < entries@.len() ==> #[trigger] id_table(*m).contains_key(entries@[i].0@)
            && id_table(*m)[entries@[i].0@] == entries@[i].1@,
        forall|i: int, j: int| 0 <= i < j < entries@.len() ==> entries@[i].0@ != entries@[j].0@,
        forall|k: Seq<u8>| #[trigger] id_table(*m).contains_key(k) ==>
            exists|i: int| 0 <= i < entries@.len() && entries@[i].0@ == k,
{
    m.iter().map(|entry| (entry.key().clone(), entry.value().clone())).collect()
}

} // verus!
