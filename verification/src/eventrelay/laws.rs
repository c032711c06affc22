//! What the relay's tables promise across calls: what a subscription and an
//! unsubscription do to the subscribers of a topic, what one undoes of the
//! other, and where an event never goes.

use vstd::prelude::*;
use crate::eventrelay::broadcaster::pair_views;
use crate::eventrelay::handler::{EventDelivery, EventHandler};
use crate::eventrelay::subscriptions::{add_client, drop_client, members_of, no_empty_topics};

verus! {

/// After a client subscribes to a topic, it is among the topic's subscribers,
/// and the other topics keep theirs.
pub proof fn law_subscribe_adds_member(subs: Map<Seq<u8>, Set<Seq<u8>>>, topic: Seq<u8>, client: Seq<u8>, other: Seq<u8>)
    ensures
        members_of(subs.insert(topic, members_of(subs, topic).insert(client)), topic).contains(client),
        other != topic ==> members_of(subs.insert(topic, members_of(subs, topic).insert(client)), other)
            == members_of(subs, other),
{
}

/// After a client unsubscribes from a topic, it is no longer among the
/// topic's subscribers, and the other topics keep theirs.
pub proof fn law_unsubscribe_removes_member(subs: Map<Seq<u8>, Set<Seq<u8>>>, topic: Seq<u8>, client: Seq<u8>, other: Seq<u8>)
    ensures
        !members_of(drop_client(subs, client, |t: Seq<u8>| t == topic), topic).contains(client),
        other != topic ==> members_of(drop_client(subs, client, |t: Seq<u8>| t == topic), other)
            == members_of(subs, other),
{
}

/// Unsubscribing undoes a subscription that was new: the table is as before.
pub proof fn law_unsubscribe_undoes_subscribe(subs: Map<Seq<u8>, Set<Seq<u8>>>, topic: Seq<u8>, client: Seq<u8>)
    requires
        no_empty_topics(subs),
        !members_of(subs, topic).contains(client),
    ensures
        drop_client(subs.insert(topic, members_of(subs, topic).insert(client)), client, |t: Seq<u8>| t == topic)
            == subs,
{
    let after = subs.insert(topic, members_of(subs, topic).insert(client));
    let back = drop_client(after, client, |t: Seq<u8>| t == topic);
    assert(members_of(subs, topic).insert(client).remove(client) =~= members_of(subs, topic));
    if !subs.contains_key(topic) {
        assert(members_of(subs, topic) =~= Set::<Seq<u8>>::empty());
    }
    assert(back =~= subs);
}

/// The table after `client` leaves every topic.
pub open spec fn left_everywhere(subs: Map<Seq<u8>, Set<Seq<u8>>>, client: Seq<u8>) -> Map<Seq<u8>, Set<Seq<u8>>> {
    drop_client(subs, client, |u: Seq<u8>| true)
}

/// After a client leaves every topic, no topic has it among its subscribers,
/// and no topic is left without subscribers.
pub proof fn law_unsubscribe_all_leaves_none(subs: Map<Seq<u8>, Set<Seq<u8>>>, client: Seq<u8>)
    ensures
        forall|t: Seq<u8>| !(#[trigger] members_of(left_everywhere(subs, client), t)).contains(client),
        no_empty_topics(left_everywhere(subs, client)),
{
}

/// After a client subscribes to the public topics, it is among the
/// subscribers of each of them.
pub proof fn law_subscribe_public_reaches_each(subs: Map<Seq<u8>, Set<Seq<u8>>>, client: Seq<u8>, public: Seq<Seq<u8>>)
    ensures
        forall|i: int| 0 <= i < public.len() ==> members_of(
            add_client(subs, client, |t: Seq<u8>| public.contains(t)),
            #[trigger] public[i],
        ).contains(client),
{
    assert forall|i: int| 0 <= i < public.len() implies members_of(
        add_client(subs, client, |t: Seq<u8>| public.contains(t)),
        #[trigger] public[i],
    ).contains(client) by {
        assert(public.contains(public[i]));
    }
}

/// Leaving and joining keep the table free of topics without subscribers.
pub proof fn law_tables_keep_no_empty_topics(subs: Map<Seq<u8>, Set<Seq<u8>>>, client: Seq<u8>, scope: spec_fn(Seq<u8>) -> bool)
    requires
        no_empty_topics(subs),
    ensures
        no_empty_topics(drop_client(subs, client, scope)),
        no_empty_topics(add_client(subs, client, scope)),
{
    let a = add_client(subs, client, scope);
    assert forall|t: Seq<u8>| #[trigger] a.contains_key(t) implies a[t] != Set::<Seq<u8>>::empty() by {
        if scope(t) {
            assert(a[t].contains(client));
        }
    }
}

/// An event never goes back to the client that sent it, and goes only to
/// clients subscribed to its topic.
pub proof fn law_event_not_echoed(
    h: EventHandler,
    topic: Seq<u8>,
    source_peer: Option<Seq<u8>>,
    source: Seq<u8>,
    d: EventDelivery,
)
    requires
        h.delivers(topic, source_peer, Some(source), &d),
    ensures
        forall|i: int| 0 <= i < d.to_clients@.len() ==> (#[trigger] pair_views(d.to_clients@)[i]).0 != source
            && members_of(h.subscriptions@, topic).contains(pair_views(d.to_clients@)[i].0),
{
    let table = h.clients.clients().restrict(members_of(h.subscriptions@, topic));
    assert forall|i: int| 0 <= i < d.to_clients@.len() implies (#[trigger] pair_views(d.to_clients@)[i]).0 != source
        && members_of(h.subscriptions@, topic).contains(pair_views(d.to_clients@)[i].0) by {
        assert(table.contains_key(pair_views(d.to_clients@)[i].0));
    }
}

/// An event that a peer sent is not forwarded to the peers.
pub proof fn law_peer_event_not_forwarded(
    h: EventHandler,
    topic: Seq<u8>,
    peer: Seq<u8>,
    source_client: Option<Seq<u8>>,
    d: EventDelivery,
)
    requires
        h.delivers(topic, Some(peer), source_client, &d),
    ensures
        d.to_peers@.len() == 0,
{
}


/// A registered connection is found again under its id, with the
/// connection it was registered with; after unregistering it is gone.
pub proof fn law_register_then_find(table: Map<Seq<u8>, Seq<u8>>, id: Seq<u8>, conn: Seq<u8>)
    ensures
        table.insert(id, conn).contains_key(id),
        table.insert(id, conn)[id] == conn,
        !table.insert(id, conn).remove(id).contains_key(id),
{
}


/// A client that is subscribed to nothing (as after it disconnects) is sent
/// no event.
pub proof fn law_unsubscribed_client_gets_nothing(
    h: EventHandler,
    topic: Seq<u8>,
    source_peer: Option<Seq<u8>>,
    source_client: Option<Seq<u8>>,
    d: EventDelivery,
    client: Seq<u8>,
)
    requires
        h.delivers(topic, source_peer, source_client, &d),
        !members_of(h.subscriptions@, topic).contains(client),
    ensures
        forall|i: int| 0 <= i < d.to_clients@.len() ==> (#[trigger] pair_views(d.to_clients@)[i]).0 != client,
{
    let table = h.clients.clients().restrict(members_of(h.subscriptions@, topic));
    assert forall|i: int| 0 <= i < d.to_clients@.len() implies (#[trigger] pair_views(d.to_clients@)[i]).0 != client by {
        assert(table.contains_key(pair_views(d.to_clients@)[i].0));
    }
}

} // verus!
