//! A registry of senders that deliver events to clients, by client id.

use vstd::prelude::*;
use std::collections::HashMap;
use crate::eventrelay::types::ClientId;
use crate::tlv::message::TLVMessage;

verus! {

broadcast use vstd::std_specs::hash::group_hash_axioms;

/// Any sender of events to a client.
pub trait ClientSender {
    fn send(&self, msg: &TLVMessage);
}

/// The registered client ids in `ids` that are not `exclude`, in order.
pub open spec fn chosen_ids(ids: Seq<ClientId>, registered: Set<ClientId>, exclude: Option<ClientId>) -> Seq<ClientId> {
    ids.filter(|id: ClientId| registered.contains(id) && exclude != Some(id))
}

/// Management of all connected clients.
pub struct ClientRegistry<S: ClientSender> {
    clients: HashMap<ClientId, S>,
}

impl<S: ClientSender> ClientRegistry<S> {
    /// The sender registered for each client id.
    pub closed spec fn senders(&self) -> Map<ClientId, S> {
        self.clients@
    }

    /// The ids of the registered clients.
    pub open spec fn ids(&self) -> Set<ClientId> {
        self.senders().dom()
    }

    /// A registry without clients.
    pub fn new() -> (r: ClientRegistry<S>)
        ensures
            r.senders() == Map::<ClientId, S>::empty(),
    {
        ClientRegistry { clients: HashMap::new() }
    }

    /// Registers the sender of client `id`, in place of any earlier one.
    pub fn register(&mut self, id: ClientId, sender: S)
        ensures
            final(self).senders() == old(self).senders().insert(id, sender),
    {
        self.clients.insert(id, sender);
    }

    /// Forgets client `id`.
    pub fn unregister(&mut self, id: ClientId)
        ensures
            final(self).senders() == old(self).senders().remove(id),
    {
        self.clients.remove(&id);
    }

    /// Sends `msg` to each registered client of `client_ids` but `exclude_id`,
    /// in order, and returns the ids it was sent to.
    fn send_each(&self, client_ids: &[ClientId], msg: &TLVMessage, exclude_id: Option<ClientId>) -> (sent: Vec<ClientId>)
        ensures
            sent@ == chosen_ids(client_ids@, self.ids(), exclude_id),
    {
        let ghost pred = |id: ClientId| self.ids().contains(id) && exclude_id != Some(id);
        let mut sent: Vec<ClientId> = Vec::new();
        let mut i: usize = 0;
        while i < client_ids.len()
            invariant
                i <= client_ids@.len(),
                pred == (|id: ClientId| self.ids().contains(id) && exclude_id != Some(id)),
                sent@ == client_ids@.take(i as int).filter(pred),
            decreases client_ids@.len() - i,
        {
            let id = client_ids[i];
            proof {
                assert(client_ids@.take(i + 1) =~= client_ids@.take(i as int).push(id));
                client_ids@.take(i as int).lemma_filter_push(id, pred);
            }
            let excluded = match exclude_id {
                Some(x) => x == id,
                None => false,
            };
            if !excluded {
                match self.clients.get(&id) {
                    Some(sender) => {
                        sender.send(msg);
                        sent.push(id);
                    },
                    None => {},
                }
            }
            i = i + 1;
        }
        assert(client_ids@.take(client_ids@.len() as int) =~= client_ids@);
        sent
    }

    /// Sends `msg` to each of `client_ids` that is registered, in order, and
    /// returns the ids it was sent to.
    pub fn send_to(&self, client_ids: &[ClientId], msg: &TLVMessage) -> (sent: Vec<ClientId>)
        ensures
            sent@ == chosen_ids(client_ids@, self.ids(), None),
    {
        self.send_each(client_ids, msg, None)
    }

    /// Sends `msg` to each of `client_ids` that is registered, but
    /// `exclude_id`, in order, and returns the ids it was sent to.
    pub fn send_to_except(&self, client_ids: &[ClientId], msg: &TLVMessage, exclude_id: Option<ClientId>) -> (sent: Vec<ClientId>)
        ensures
            sent@ == chosen_ids(client_ids@, self.ids(), exclude_id),
    {
        self.send_each(client_ids, msg, exclude_id)
    }

    /// The ids of the registered clients, each once.
    fn registered_ids(&self) -> (ids: Vec<ClientId>)
        ensures
            ids@.no_duplicates(),
            ids@.to_set() == self.ids(),
    {
        let ghost ks = vstd::std_specs::iter::IteratorSpec::remaining(&vstd::std_specs::hash::spec_keys_iter(&self.clients)).map_values(|k: &ClientId| *k);
        proof {
            vstd::std_specs::hash::axiom_spec_keys_iter(&self.clients);
            assert(ks =~= vstd::std_specs::iter::IteratorSpec::remaining(&vstd::std_specs::hash::spec_keys_iter(&self.clients)).unref());
        }
        let mut ids: Vec<ClientId> = Vec::new();
        for id in it: self.clients.keys()
            invariant
                ks == it.seq().map_values(|k: &ClientId| *k),
                ids@ == ks.take(it.index()),
            ensures
                ids@ == ks,
        {
            assert(ks[it.index()] == *id);
            ids.push(*id);
            assert(ids@ =~= ks.take(it.index() + 1));
        }
        ids
    }

    /// Sends `msg` to every registered client and returns their ids.
    pub fn broadcast(&self, msg: &TLVMessage) -> (sent: Vec<ClientId>)
        ensures
            sent@.no_duplicates(),
            sent@.to_set() == self.ids(),
    {
        let ids = self.registered_ids();
        let sent = self.send_each(ids.as_slice(), msg, None);
        proof {
            lemma_chosen_all(ids@, self.ids(), None);
        }
        sent
    }

    /// Sends `msg` to every registered client but `exclude_id` and returns
    /// their ids.
    pub fn broadcast_except(&self, msg: &TLVMessage, exclude_id: Option<ClientId>) -> (sent: Vec<ClientId>)
        ensures
            sent@.no_duplicates(),
            sent@.to_set() == match exclude_id {
                Some(x) => self.ids().remove(x),
                None => self.ids(),
            },
    {
        let ids = self.registered_ids();
        let sent = self.send_each(ids.as_slice(), msg, exclude_id);
        proof {
            lemma_chosen_all(ids@, self.ids(), exclude_id);
        }
        sent
    }
}

/// Filtering a list without duplicates leaves none.
proof fn lemma_filter_keeps_distinct(ids: Seq<ClientId>, pred: spec_fn(ClientId) -> bool)
    requires
        ids.no_duplicates(),
    ensures
        ids.filter(pred).no_duplicates(),
    decreases ids.len(),
{
    reveal(Seq::filter);
    if ids.len() > 0 {
        let d = ids.drop_last();
        assert forall|i: int, j: int| 0 <= i < d.len() && 0 <= j < d.len() && i != j implies d[i] != d[j] by {
            assert(d[i] == ids[i] && d[j] == ids[j]);
        }
        lemma_filter_keeps_distinct(d, pred);
        if pred(ids.last()) {
            broadcast use vstd::seq_lib::group_filter_ensures;
            let f = d.filter(pred);
            assert forall|i: int| 0 <= i < f.len() implies f[i] != ids.last() by {
                if f[i] == ids.last() {
                    assert(f.contains(f[i]));
                    d.lemma_filter_contains_rev(pred, f[i]);
                    assert(d.contains(f[i]));
                    let k = choose|k: int| 0 <= k < d.len() && d[k] == f[i];
                    assert(ids[k] == ids[ids.len() - 1]);
                }
            }
        }
    }
}

/// Choosing from a listing of all registered ids, each once, gives each
/// registered id but the excluded one, once.
proof fn lemma_chosen_all(ids: Seq<ClientId>, registered: Set<ClientId>, exclude: Option<ClientId>)
    requires
        ids.no_duplicates(),
        ids.to_set() == registered,
    ensures
        chosen_ids(ids, registered, exclude).no_duplicates(),
        chosen_ids(ids, registered, exclude).to_set() == match exclude {
            Some(x) => registered.remove(x),
            None => registered,
        },
{
    let pred = |id: ClientId| registered.contains(id) && exclude != Some(id);
    let c = ids.filter(pred);
    lemma_filter_keeps_distinct(ids, pred);
    assert(c.to_set() =~= match exclude {
        Some(x) => registered.remove(x),
        None => registered,
    }) by {
        assert forall|id: ClientId| c.to_set().contains(id) implies pred(id) by {
            broadcast use vstd::seq_lib::group_filter_ensures;
        }
        assert forall|id: ClientId| #[trigger] registered.contains(id) && pred(id) implies c.to_set().contains(id) by {
            broadcast use vstd::seq_lib::group_filter_ensures;
            assert(ids.to_set().contains(id));
            let k = choose|k: int| 0 <= k < ids.len() && ids[k] == id;
            assert(c.contains(ids[k]));
        }
    }
}

} // verus!
