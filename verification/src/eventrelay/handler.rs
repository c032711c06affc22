//! The event handler: what the relay does with an event, a subscription
//! and a disconnect.

use vstd::prelude::*;
use crate::eventrelay::broadcaster::{ConnectionRegistry, opt_view, pair_views, reaches_all_but};
use crate::eventrelay::subscriptions::{SubscriptionManager, add_client, drop_client, members_of, same_bytes};
use crate::eventrelay::tables::views_of;

verus! {

/// Where an event goes: to the local clients that subscribed to its topic
/// and to the peer servers, each with the connection that reaches it.
pub struct EventDelivery {
    pub to_clients: Vec<(Vec<u8>, Vec<u8>)>,
    pub to_peers: Vec<(Vec<u8>, Vec<u8>)>,
}

/// The ids of `ids` that `table` holds and that are not `exclude`, each
/// with its entry in the table, in order.
pub open spec fn picked(ids: Seq<Seq<u8>>, table: Map<Seq<u8>, Seq<u8>>, exclude: Option<Seq<u8>>) -> Seq<(Seq<u8>, Seq<u8>)>
    decreases ids.len(),
{
    if ids.len() == 0 {
        Seq::empty()
    } else {
        let r = picked(ids.drop_last(), table, exclude);
        let k = ids.last();
        if table.contains_key(k) && exclude != Some(k) { r.push((k, table[k])) } else { r }
    }
}

/// Picking from a list of ids without duplicates reaches every entry of the
/// table that the list names, but the excluded one.
proof fn lemma_picked(ids: Seq<Seq<u8>>, table: Map<Seq<u8>, Seq<u8>>, exclude: Option<Seq<u8>>)
    requires
        ids.no_duplicates(),
    ensures
        reaches_all_but(picked(ids, table, exclude), table.restrict(ids.to_set()), exclude),
        forall|i: int| 0 <= i < picked(ids, table, exclude).len() ==> ids.contains(#[trigger] picked(ids, table, exclude)[i].0),
    decreases ids.len(),
{
    if ids.len() > 0 {
        let d = ids.drop_last();
        let k = ids.last();
        lemma_picked(d, table, exclude);
        let r = picked(d, table, exclude);
        let p = picked(ids, table, exclude);
        let big = table.restrict(ids.to_set());
        let small = table.restrict(d.to_set());
        assert forall|i: int| 0 <= i < d.len() implies ids.contains(#[trigger] d[i]) by {
            assert(ids[i] == d[i]);
        }
        assert(!d.contains(k)) by {
            if d.contains(k) {
                let j = choose|j: int| 0 <= j < d.len() && d[j] == k;
                assert(ids[j] == ids[ids.len() - 1]);
            }
        }
        assert forall|i: int| 0 <= i < p.len() implies ids.contains(#[trigger] p[i].0) by {
            if i < r.len() {
                assert(p[i] == r[i]);
                assert(d.contains(r[i].0));
            } else {
                assert(ids[ids.len() - 1] == k);
            }
        }
        assert forall|i: int| 0 <= i < p.len() implies #[trigger] big.contains_key(p[i].0) && big[p[i].0]
            == p[i].1 && exclude != Some(p[i].0) by {
            if i < r.len() {
                assert(p[i] == r[i]);
                assert(small.contains_key(r[i].0));
                assert(d.to_set().contains(r[i].0));
                assert(ids.to_set().contains(r[i].0));
            } else {
                assert(ids[ids.len() - 1] == k);
                assert(ids.to_set().contains(k));
            }
        }
        assert forall|a: int, b: int| 0 <= a < b < p.len() implies p[a].0 != p[b].0 by {
            if b >= r.len() {
                assert(d.contains(r[a].0));
            }
        }
        assert forall|key: Seq<u8>| #[trigger] big.contains_key(key) && exclude != Some(key) implies exists|i: int|
            0 <= i < p.len() && p[i].0 == key by {
            if key == k {
                assert(p[p.len() - 1].0 == k);
            } else {
                assert(ids.to_set().contains(key));
                let j = choose|j: int| 0 <= j < ids.len() && ids[j] == key;
                assert(d[j] == key);
                assert(d.to_set().contains(key));
                assert(small.contains_key(key));
                let i = choose|i: int| 0 <= i < r.len() && r[i].0 == key;
                assert(p[i] == r[i]);
            }
        }
    } else {
        assert(table.restrict(ids.to_set()) =~= Map::<Seq<u8>, Seq<u8>>::empty());
    }
}

/// Manages event distribution in the cluster.
pub struct EventHandler {
    pub subscriptions: SubscriptionManager,
    pub clients: ConnectionRegistry,
    pub public_topics: Vec<Vec<u8>>,
}

impl EventHandler {
    /// `d` is where an event on `topic` goes: to each registered client
    /// subscribed to the topic but the source client, and, unless a peer sent
    /// it, to every peer.
    pub open spec fn delivers(
        &self,
        topic: Seq<u8>,
        source_peer: Option<Seq<u8>>,
        source_client: Option<Seq<u8>>,
        d: &EventDelivery,
    ) -> bool {
        &&& reaches_all_but(
            pair_views(d.to_clients@),
            self.clients.clients().restrict(members_of(self.subscriptions@, topic)),
            source_client,
        )
        &&& source_peer is None ==> reaches_all_but(pair_views(d.to_peers@), self.clients.peers(), None)
        &&& source_peer is Some ==> d.to_peers@.len() == 0
    }

    /// A handler over the given tables.
    pub fn new(subscriptions: SubscriptionManager, clients: ConnectionRegistry, public_topics: Vec<Vec<u8>>) -> (h: EventHandler)
        ensures
            h.subscriptions == subscriptions,
            h.clients == clients,
            h.public_topics == public_topics,
    {
        EventHandler { subscriptions, clients, public_topics }
    }

    /// Called when an event is received: the event goes to each registered
    /// client that subscribed to its topic, except the client that sent it;
    /// an event that no peer sent is also forwarded to every peer.
    pub fn handle_event(&self, topic: &[u8], source_peer: Option<Vec<u8>>, source_client: Option<Vec<u8>>) -> (d: EventDelivery)
        ensures
            self.delivers(topic@, opt_view(source_peer), opt_view(source_client), &d),
    {
        let client_ids = self.subscriptions.clients_for_topic(topic);
        let ghost ids = views_of(client_ids@);
        let ghost table = self.clients.clients();
        let ghost x = opt_view(source_client);
        let mut to_clients: Vec<(Vec<u8>, Vec<u8>)> = Vec::new();
        let mut i: usize = 0;
        assert(pair_views(to_clients@) =~= picked(ids.take(0), table, x));
        while i < client_ids.len()
            invariant
                i <= client_ids@.len(),
                ids == views_of(client_ids@),
                table == self.clients.clients(),
                x == opt_view(source_client),
                pair_views(to_clients@) == picked(ids.take(i as int), table, x),
            decreases client_ids@.len() - i,
        {
            let id = client_ids[i].as_slice();
            assert(id@ == ids[i as int]);
            assert(ids.take(i + 1).drop_last() =~= ids.take(i as int));
            assert(ids.take(i + 1).last() == ids[i as int]);
            let ghost before = pair_views(to_clients@);
            let is_source = match &source_client {
                Some(s) => same_bytes(id, s.as_slice()),
                None => false,
            };
            if !is_source {
                match self.clients.get_client(id) {
                    Some(conn) => {
                        let ghost cv = conn@;
                        to_clients.push((vstd::slice::slice_to_vec(id), conn));
                        assert(pair_views(to_clients@) =~= before.push((ids[i as int], cv)));
                    },
                    None => {},
                }
            }
            i = i + 1;
        }
        proof {
            assert(ids.take(client_ids@.len() as int) =~= ids);
            lemma_picked(ids, table, x);
        }
        let to_peers = if source_peer.is_none() {
            self.clients.broadcast_to_peers(None)
        } else {
            Vec::new()
        };
        EventDelivery { to_clients, to_peers }
    }

    /// A client subscribes to a topic.
    pub fn handle_subscribe(&mut self, topic: &[u8], client_id: Vec<u8>)
        ensures
            final(self).clients == old(self).clients,
            final(self).public_topics == old(self).public_topics,
            final(self).subscriptions.public() == old(self).subscriptions.public(),
            final(self).subscriptions@ == old(self).subscriptions@.insert(
                topic@,
                members_of(old(self).subscriptions@, topic@).insert(client_id@),
            ),
    {
        self.subscriptions.subscribe(topic, client_id);
    }

    /// A client unsubscribes from a topic.
    pub fn handle_unsubscribe(&mut self, topic: &[u8], client_id: Vec<u8>)
        ensures
            final(self).clients == old(self).clients,
            final(self).public_topics == old(self).public_topics,
            final(self).subscriptions.public() == old(self).subscriptions.public(),
            final(self).subscriptions@ == drop_client(old(self).subscriptions@, client_id@, |t: Seq<u8>| t == topic@),
    {
        self.subscriptions.unsubscribe(topic, client_id);
    }

    /// A client subscribes to every public topic.
    pub fn handle_subscribe_public(&mut self, client_id: Vec<u8>)
        ensures
            final(self).clients == old(self).clients,
            final(self).public_topics == old(self).public_topics,
            final(self).subscriptions.public() == old(self).subscriptions.public(),
            final(self).subscriptions@ == add_client(
                old(self).subscriptions@,
                client_id@,
                |t: Seq<u8>| old(self).subscriptions.public().contains(t),
            ),
    {
        self.subscriptions.subscribe_public(client_id);
    }

    /// A client leaves every public topic.
    pub fn handle_unsubscribe_public(&mut self, client_id: Vec<u8>)
        ensures
            final(self).clients == old(self).clients,
            final(self).public_topics == old(self).public_topics,
            final(self).subscriptions.public() == old(self).subscriptions.public(),
            final(self).subscriptions@ == drop_client(
                old(self).subscriptions@,
                client_id@,
                |t: Seq<u8>| old(self).subscriptions.public().contains(t),
            ),
    {
        self.subscriptions.unsubscribe_public(client_id);
    }

    /// Handles the cleanup when a client disconnects: it leaves every topic,
    /// and is unregistered as a client or, failing that, as a peer.
    pub fn handle_client_disconnect(&mut self, client_id: Vec<u8>)
        ensures
            final(self).public_topics == old(self).public_topics,
            final(self).subscriptions.public() == old(self).subscriptions.public(),
            final(self).subscriptions@ == drop_client(old(self).subscriptions@, client_id@, |t: Seq<u8>| true),
            old(self).clients.clients().contains_key(client_id@) ==> {
                &&& final(self).clients.clients() == old(self).clients.clients().remove(client_id@)
                &&& final(self).clients.peers() == old(self).clients.peers()
            },
            !old(self).clients.clients().contains_key(client_id@) ==> {
                &&& final(self).clients.clients() == old(self).clients.clients()
                &&& final(self).clients.peers() == old(self).clients.peers().remove(client_id@)
            },
    {
        self.subscriptions.unsubscribe_all(vstd::slice::slice_to_vec(client_id.as_slice()));
        if self.clients.contains_client(client_id.as_slice()) {
            self.clients.unregister_client(client_id.as_slice());
        } else if self.clients.contains_peer(client_id.as_slice()) {
            self.clients.unregister_peer(client_id.as_slice());
        } else {
            assert(self.clients.peers().remove(client_id@) =~= self.clients.peers());
        }
    }
}

} // verus!
