//! The registry of connections: which connection each peer and each client
//! is reached through.
//!
//! A connection is named by its id (the bytes of a UUID that the network
//! layer gives it); the registry maps the id of each peer server and of each
//! client to the connection id that reaches it.

use vstd::prelude::*;
use dashmap::DashMap;
use crate::eventrelay::subscriptions::same_bytes;
use crate::eventrelay::tables::{id_contains, id_entries, id_get, id_insert, id_remove, id_table, new_id_table};

verus! {

/// The bytes of each (id, connection) pair of a list.
pub open spec fn pair_views(v: Seq<(Vec<u8>, Vec<u8>)>) -> Seq<(Seq<u8>, Seq<u8>)> {
    v.map_values(|p: (Vec<u8>, Vec<u8>)| (p.0@, p.1@))
}

/// `r` lists every entry of `table` but the one with id `exclude`, each once,
/// in some order.
pub open spec fn reaches_all_but(
    r: Seq<(Seq<u8>, Seq<u8>)>,
    table: Map<Seq<u8>, Seq<u8>>,
    exclude: Option<Seq<u8>>,
) -> bool {
    &&& forall|i: int| 0 <= i < r.len() ==> #[trigger] table.contains_key(r[i].0)
        && table[r[i].0] == r[i].1 && exclude != Some(r[i].0)
    &&& forall|i: int, j: int| 0 <= i < j < r.len() ==> r[i].0 != r[j].0
    &&& forall|k: Seq<u8>| #[trigger] table.contains_key(k) && exclude != Some(k)
        ==> exists|i: int| 0 <= i < r.len() && r[i].0 == k
}

/// The id as an optional byte string.
pub open spec fn opt_view(o: Option<Vec<u8>>) -> Option<Seq<u8>> {
    match o {
        Some(v) => Some(v@),
        None => None,
    }
}

/// Registry for active peer connections and client connections.
pub struct ConnectionRegistry {
    peers: DashMap<Vec<u8>, Vec<u8>>,
    clients: DashMap<Vec<u8>, Vec<u8>>,
}

/// The entries of `s` whose id is not `exclude`, in order.
pub open spec fn keep_all_but(s: Seq<(Seq<u8>, Seq<u8>)>, exclude: Option<Seq<u8>>) -> Seq<(Seq<u8>, Seq<u8>)>
    decreases s.len(),
{
    if s.len() == 0 {
        Seq::empty()
    } else {
        let r = keep_all_but(s.drop_last(), exclude);
        if exclude == Some(s.last().0) { r } else { r.push(s.last()) }
    }
}

/// What `keep_all_but` keeps: entries of `s` that are not excluded, all of
/// them, and with distinct ids when `s` has distinct ids.
proof fn lemma_keep_all_but(s: Seq<(Seq<u8>, Seq<u8>)>, exclude: Option<Seq<u8>>)
    ensures
        forall|i: int| 0 <= i < keep_all_but(s, exclude).len() ==> exists|j: int| 0 <= j < s.len()
            && #[trigger] keep_all_but(s, exclude)[i] == s[j] && exclude != Some(s[j].0),
        forall|j: int| 0 <= j < s.len() && exclude != Some(#[trigger] s[j].0) ==> exists|i: int|
            0 <= i < keep_all_but(s, exclude).len() && keep_all_but(s, exclude)[i] == s[j],
        (forall|p: int, q: int| 0 <= p < q < s.len() ==> s[p].0 != s[q].0) ==> (forall|p: int, q: int|
            0 <= p < q < keep_all_but(s, exclude).len() ==> keep_all_but(s, exclude)[p].0
                != keep_all_but(s, exclude)[q].0),
    decreases s.len(),
{
    if s.len() > 0 {
        let d = s.drop_last();
        lemma_keep_all_but(d, exclude);
        let r = keep_all_but(d, exclude);
        let k = keep_all_but(s, exclude);
        assert forall|i: int| 0 <= i < k.len() implies exists|j: int| 0 <= j < s.len() && #[trigger] k[i]
            == s[j] && exclude != Some(s[j].0) by {
            if i < r.len() {
                let j = choose|j: int| 0 <= j < d.len() && #[trigger] r[i] == d[j] && exclude != Some(d[j].0);
                assert(k[i] == s[j]);
            } else {
                assert(k[i] == s[s.len() - 1]);
            }
        }
        assert forall|j: int| 0 <= j < s.len() && exclude != Some(#[trigger] s[j].0) implies exists|i: int|
            0 <= i < k.len() && k[i] == s[j] by {
            if j < d.len() {
                assert(s[j] == d[j]);
                let i = choose|i: int| 0 <= i < r.len() && r[i] == d[j];
                assert(k[i] == s[j]);
            } else {
                assert(k[k.len() - 1] == s[j]);
            }
        }
        if forall|p: int, q: int| 0 <= p < q < s.len() ==> s[p].0 != s[q].0 {
            assert forall|p: int, q: int| 0 <= p < q < d.len() implies d[p].0 != d[q].0 by {
                assert(d[p] == s[p] && d[q] == s[q]);
            }
            assert forall|p: int, q: int| 0 <= p < q < k.len() implies k[p].0 != k[q].0 by {
                if q == r.len() && k.len() > r.len() {
                    let j = choose|j: int| 0 <= j < d.len() && #[trigger] r[p] == d[j] && exclude != Some(d[j].0);
                    assert(d[j] == s[j]);
                    assert(k[q] == s[s.len() - 1]);
                }
            }
        }
    }
}

/// Keeping all but the excluded entry of a listing of a table reaches all
/// but that entry of the table.
proof fn lemma_reaches_all_but(ev: Seq<(Seq<u8>, Seq<u8>)>, t: Map<Seq<u8>, Seq<u8>>, x: Option<Seq<u8>>)
    requires
        forall|p: int| 0 <= p < ev.len() ==> #[trigger] t.contains_key(ev[p].0) && t[ev[p].0] == ev[p].1,
        forall|p: int, q: int| 0 <= p < q < ev.len() ==> ev[p].0 != ev[q].0,
        forall|key: Seq<u8>| #[trigger] t.contains_key(key) ==> exists|p: int| 0 <= p < ev.len() && ev[p].0 == key,
    ensures
        reaches_all_but(keep_all_but(ev, x), t, x),
{
    lemma_keep_all_but(ev, x);
    let k = keep_all_but(ev, x);
    assert forall|p: int| 0 <= p < k.len() implies #[trigger] t.contains_key(k[p].0) && t[k[p].0] == k[p].1
        && x != Some(k[p].0) by {
        let j = choose|j: int| 0 <= j < ev.len() && #[trigger] k[p] == ev[j] && x != Some(ev[j].0);
        assert(t.contains_key(ev[j].0));
    }
    assert forall|key: Seq<u8>| #[trigger] t.contains_key(key) && x != Some(key) implies exists|p: int|
        0 <= p < k.len() && k[p].0 == key by {
        let q = choose|q: int| 0 <= q < ev.len() && ev[q].0 == key;
        assert(x != Some(ev[q].0));
        let p = choose|p: int| 0 <= p < k.len() && k[p] == ev[q];
    }
}

/// The entries of a table that a broadcast reaches: all but the excluded id.
fn reach_all_but(table: &DashMap<Vec<u8>, Vec<u8>>, exclude: Option<Vec<u8>>) -> (r: Vec<(Vec<u8>, Vec<u8>)>)
    ensures
        reaches_all_but(pair_views(r@), id_table(*table), opt_view(exclude)),
{
    let entries = id_entries(table);
    let ghost ev = pair_views(entries@);
    let ghost x = opt_view(exclude);
    let mut out: Vec<(Vec<u8>, Vec<u8>)> = Vec::new();
    let mut i: usize = 0;
    assert(pair_views(out@) =~= keep_all_but(ev.take(0), x));
    while i < entries.len()
        invariant
            i <= entries@.len(),
            ev == pair_views(entries@),
            x == opt_view(exclude),
            pair_views(out@) == keep_all_but(ev.take(i as int), x),
        decreases entries@.len() - i,
    {
        let excluded = match &exclude {
            Some(e) => same_bytes(entries[i].0.as_slice(), e.as_slice()),
            None => false,
        };
        let ghost before = pair_views(out@);
        assert(ev.take(i + 1).drop_last() =~= ev.take(i as int));
        assert(ev.take(i + 1).last() == ev[i as int]);
        if !excluded {
            let id = vstd::slice::slice_to_vec(entries[i].0.as_slice());
            let conn = vstd::slice::slice_to_vec(entries[i].1.as_slice());
            out.push((id, conn));
            assert(pair_views(out@) =~= before.push(ev[i as int]));
        }
        i = i + 1;
    }
    proof {
        assert(ev.take(entries@.len() as int) =~= ev);
        let t = id_table(*table);
        assert forall|p: int| 0 <= p < ev.len() implies #[trigger] t.contains_key(ev[p].0) && t[ev[p].0] == ev[p].1 by {
            assert(ev[p] == (entries@[p].0@, entries@[p].1@));
        }
        assert forall|p: int, q: int| 0 <= p < q < ev.len() implies ev[p].0 != ev[q].0 by {
            assert(ev[p].0 == entries@[p].0@ && ev[q].0 == entries@[q].0@);
        }
        assert forall|key: Seq<u8>| #[trigger] t.contains_key(key) implies exists|p: int| 0 <= p < ev.len() && ev[p].0 == key by {
            let q = choose|q: int| 0 <= q < entries@.len() && entries@[q].0@ == key;
            assert(ev[q].0 == key);
        }
        lemma_reaches_all_but(ev, t, x);
    }
    out
}

impl ConnectionRegistry {
    /// Each registered peer id with its connection id.
    pub closed spec fn peers(&self) -> Map<Seq<u8>, Seq<u8>> {
        id_table(self.peers)
    }

    /// Each registered client id with its connection id.
    pub closed spec fn clients(&self) -> Map<Seq<u8>, Seq<u8>> {
        id_table(self.clients)
    }

    /// An empty registry.
    pub fn new() -> (r: ConnectionRegistry)
        ensures
            r.peers() == Map::<Seq<u8>, Seq<u8>>::empty(),
            r.clients() == Map::<Seq<u8>, Seq<u8>>::empty(),
    {
        ConnectionRegistry { peers: new_id_table(), clients: new_id_table() }
    }

    /// Registers the peer `id`, reached through connection `conn`.
    pub fn register_peer(&mut self, id: Vec<u8>, conn: Vec<u8>)
        ensures
            final(self).peers() == old(self).peers().insert(id@, conn@),
            final(self).clients() == old(self).clients(),
    {
        id_insert(&mut self.peers, id, conn);
    }

    /// Registers the client `id`, reached through connection `conn`.
    pub fn register_client(&mut self, id: Vec<u8>, conn: Vec<u8>)
        ensures
            final(self).clients() == old(self).clients().insert(id@, conn@),
            final(self).peers() == old(self).peers(),
    {
        id_insert(&mut self.clients, id, conn);
    }

    /// Forgets the peer `id`.
    pub fn unregister_peer(&mut self, id: &[u8])
        ensures
            final(self).peers() == old(self).peers().remove(id@),
            final(self).clients() == old(self).clients(),
    {
        id_remove(&mut self.peers, id);
    }

    /// Forgets the client `id`.
    pub fn unregister_client(&mut self, id: &[u8])
        ensures
            final(self).clients() == old(self).clients().remove(id@),
            final(self).peers() == old(self).peers(),
    {
        id_remove(&mut self.clients, id);
    }

    /// The peers that a broadcast reaches: every registered peer but the
    /// excluded one, each with its connection id.
    pub fn broadcast_to_peers(&self, exclude_peer_id: Option<Vec<u8>>) -> (r: Vec<(Vec<u8>, Vec<u8>)>)
        ensures
            reaches_all_but(pair_views(r@), self.peers(), opt_view(exclude_peer_id)),
    {
        reach_all_but(&self.peers, exclude_peer_id)
    }

    /// The clients that a broadcast reaches: every registered client but the
    /// excluded one, each with its connection id.
    pub fn broadcast_to_clients(&self, exclude_client_id: Option<Vec<u8>>) -> (r: Vec<(Vec<u8>, Vec<u8>)>)
        ensures
            reaches_all_but(pair_views(r@), self.clients(), opt_view(exclude_client_id)),
    {
        reach_all_but(&self.clients, exclude_client_id)
    }

    /// The connection of the peer `peer_id`, if it is registered.
    pub fn get_peer(&self, peer_id: &[u8]) -> (r: Option<Vec<u8>>)
        ensures
            opt_view(r) == if self.peers().contains_key(peer_id@) { Some(self.peers()[peer_id@]) } else { None },
    {
        id_get(&self.peers, peer_id)
    }

    /// The connection of the client `client_id`, if it is registered.
    pub fn get_client(&self, client_id: &[u8]) -> (r: Option<Vec<u8>>)
        ensures
            opt_view(r) == if self.clients().contains_key(client_id@) { Some(self.clients()[client_id@]) } else { None },
    {
        id_get(&self.clients, client_id)
    }

    /// Whether the peer `peer_id` is registered.
    pub fn contains_peer(&self, peer_id: &[u8]) -> (r: bool)
        ensures
            r == self.peers().contains_key(peer_id@),
    {
        id_contains(&self.peers, peer_id)
    }

    /// Whether the client `client_id` is registered.
    pub fn contains_client(&self, client_id: &[u8]) -> (r: bool)
        ensures
            r == self.clients().contains_key(client_id@),
    {
        id_contains(&self.clients, client_id)
    }
}

} // verus!
