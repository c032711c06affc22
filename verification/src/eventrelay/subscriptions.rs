//! The subscription table: which clients have subscribed to which topic.

use vstd::prelude::*;
use dashmap::DashMap;
use crate::eventrelay::tables::{
    clone_topic_table, new_topic_table, remove_topic, set_topic_members, topic_keys, topic_members,
    topic_table, views_of,
};

verus! {

/// Two byte strings hold the same bytes.
pub fn same_bytes(a: &[u8], b: &[u8]) -> (r: bool)
    ensures
        r == (a@ == b@),
{
    if a.len() != b.len() {
        return false;
    }
    let mut i: usize = 0;
    while i < a.len()
        invariant
            a@.len() == b@.len(),
            i <= a@.len(),
            forall|j: int| 0 <= j < i ==> a@[j] == b@[j],
        decreases a@.len() - i,
    {
        if a[i] != b[i] {
            return false;
        }
        i = i + 1;
    }
    assert(a@ =~= b@);
    true
}

/// The position of a byte string in a list, if it is there.
pub fn position_of(list: &Vec<Vec<u8>>, x: &[u8]) -> (r: Option<usize>)
    ensures
        match r {
            Some(i) => i < list@.len() && list@[i as int]@ == x@,
            None => !views_of(list@).contains(x@),
        },
{
    let mut i: usize = 0;
    while i < list.len()
        invariant
            i <= list@.len(),
            forall|j: int| 0 <= j < i ==> list@[j]@ != x@,
        decreases list@.len() - i,
    {
        if same_bytes(list[i].as_slice(), x) {
            return Some(i);
        }
        i = i + 1;
    }
    assert forall|j: int| 0 <= j < views_of(list@).len() implies views_of(list@)[j] != x@ by {}
    None
}

/// Each topic's subscribers as a set.
pub open spec fn sets_of(t: Map<Seq<u8>, Seq<Seq<u8>>>) -> Map<Seq<u8>, Set<Seq<u8>>> {
    t.map_values(|s: Seq<Seq<u8>>| s.to_set())
}

/// The subscribers of a topic: none when the topic is absent.
pub open spec fn members_of(subs: Map<Seq<u8>, Set<Seq<u8>>>, topic: Seq<u8>) -> Set<Seq<u8>> {
    if subs.contains_key(topic) { subs[topic] } else { Set::empty() }
}

/// The table after `client` subscribes to every topic in `scope`.
pub open spec fn add_client(
    subs: Map<Seq<u8>, Set<Seq<u8>>>,
    client: Seq<u8>,
    scope: spec_fn(Seq<u8>) -> bool,
) -> Map<Seq<u8>, Set<Seq<u8>>> {
    Map::new(
        |t: Seq<u8>| subs.contains_key(t) || scope(t),
        |t: Seq<u8>| if scope(t) { members_of(subs, t).insert(client) } else { subs[t] },
    )
}

/// The table after `client` leaves every topic in `scope`; a topic left
/// without subscribers is dropped.
pub open spec fn drop_client(
    subs: Map<Seq<u8>, Set<Seq<u8>>>,
    client: Seq<u8>,
    scope: spec_fn(Seq<u8>) -> bool,
) -> Map<Seq<u8>, Set<Seq<u8>>> {
    Map::new(
        |t: Seq<u8>| subs.contains_key(t) && !(scope(t) && subs[t].remove(client) == Set::<Seq<u8>>::empty()),
        |t: Seq<u8>| if scope(t) { subs[t].remove(client) } else { subs[t] },
    )
}

/// Appending to a list adds to its set.
proof fn lemma_push_to_set(s: Seq<Seq<u8>>, x: Seq<u8>)
    ensures
        s.push(x).to_set() == s.to_set().insert(x),
{
    assert(s.push(x).to_set() =~= s.to_set().insert(x)) by {
        assert forall|y: Seq<u8>| s.push(x).to_set().contains(y) implies s.to_set().insert(x).contains(y) by {
            let k = choose|k: int| 0 <= k < s.push(x).len() && s.push(x)[k] == y;
            if k < s.len() {
                assert(s[k] == y);
            }
        }
        assert forall|y: Seq<u8>| s.to_set().insert(x).contains(y) implies s.push(x).to_set().contains(y) by {
            if y == x {
                assert(s.push(x)[s.len() as int] == x);
            } else {
                let k = choose|k: int| 0 <= k < s.len() && s[k] == y;
                assert(s.push(x)[k] == y);
            }
        }
    }
}

/// Removing an entry from a list without duplicates removes it from its set.
proof fn lemma_remove_to_set(s: Seq<Seq<u8>>, i: int)
    requires
        s.no_duplicates(),
        0 <= i < s.len(),
    ensures
        s.remove(i).to_set() == s.to_set().remove(s[i]),
        s.remove(i).no_duplicates(),
{
    let r = s.remove(i);
    assert forall|k: int| 0 <= k < r.len() implies r[k] == (if k < i { s[k] } else { s[k + 1] }) by {}
    assert(r.to_set() =~= s.to_set().remove(s[i])) by {
        assert forall|y: Seq<u8>| r.to_set().contains(y) implies s.to_set().remove(s[i]).contains(y) by {
            let k = choose|k: int| 0 <= k < r.len() && r[k] == y;
            if k < i {
                assert(s[k] == y);
            } else {
                assert(s[k + 1] == y);
            }
        }
        assert forall|y: Seq<u8>| s.to_set().remove(s[i]).contains(y) implies r.to_set().contains(y) by {
            let k = choose|k: int| 0 <= k < s.len() && s[k] == y;
            if k < i {
                assert(r[k] == y);
            } else {
                assert(k != i);
                assert(r[k - 1] == y);
            }
        }
    }
}

/// A list's set is empty exactly when the list is.
proof fn lemma_empty_to_set(s: Seq<Seq<u8>>)
    ensures
        (s.to_set() == Set::<Seq<u8>>::empty()) == (s.len() == 0),
{
    if s.len() > 0 {
        assert(s.to_set().contains(s[0]));
    } else {
        assert(s.to_set() =~= Set::<Seq<u8>>::empty());
    }
}


/// No topic of the table is without subscribers.
pub open spec fn no_empty_topics(subs: Map<Seq<u8>, Set<Seq<u8>>>) -> bool {
    forall|t: Seq<u8>| #[trigger] subs.contains_key(t) ==> subs[t] != Set::<Seq<u8>>::empty()
}

/// Leaving topics that a client is not subscribed to changes nothing, so two
/// scopes that differ only on such topics drop the same.
proof fn lemma_drop_same_where_absent(
    subs: Map<Seq<u8>, Set<Seq<u8>>>,
    client: Seq<u8>,
    a: spec_fn(Seq<u8>) -> bool,
    b: spec_fn(Seq<u8>) -> bool,
)
    requires
        no_empty_topics(subs),
        forall|t: Seq<u8>| subs.contains_key(t) && a(t) != b(t) ==> !subs[t].contains(client),
    ensures
        drop_client(subs, client, a) == drop_client(subs, client, b),
{
    assert forall|t: Seq<u8>| subs.contains_key(t) && !subs[t].contains(client) implies subs[t].remove(client) == subs[t] by {
        assert(subs[t].remove(client) =~= subs[t]);
    }
    assert(drop_client(subs, client, a) =~= drop_client(subs, client, b));
}

/// Leaving some topics and then all of them is leaving all of them.
proof fn lemma_drop_then_drop_all(
    subs: Map<Seq<u8>, Set<Seq<u8>>>,
    client: Seq<u8>,
    scope: spec_fn(Seq<u8>) -> bool,
)
    ensures
        drop_client(drop_client(subs, client, scope), client, |t: Seq<u8>| true)
            == drop_client(subs, client, |t: Seq<u8>| true),
{
    let d = drop_client(subs, client, scope);
    assert forall|t: Seq<u8>| subs.contains_key(t) implies subs[t].remove(client).remove(client) == subs[t].remove(client) by {
        assert(subs[t].remove(client).remove(client) =~= subs[t].remove(client));
    }
    assert(drop_client(d, client, |t: Seq<u8>| true) =~= drop_client(subs, client, |t: Seq<u8>| true));
}


/// A prefix one longer holds one more entry.
proof fn lemma_take_one_more(s: Seq<Seq<u8>>, i: int)
    requires
        0 <= i < s.len(),
    ensures
        forall|t: Seq<u8>| #[trigger] s.take(i + 1).contains(t) == (s.take(i).contains(t) || t == s[i]),
{
    let a = s.take(i);
    let b = s.take(i + 1);
    assert forall|t: Seq<u8>| #[trigger] b.contains(t) == (a.contains(t) || t == s[i]) by {
        if t == s[i] {
            assert(b[i] == t);
        }
        if a.contains(t) {
            let q = choose|q: int| 0 <= q < a.len() && a[q] == t;
            assert(b[q] == t);
        }
        if b.contains(t) && t != s[i] {
            let q = choose|q: int| 0 <= q < b.len() && b[q] == t;
            assert(a[q] == t);
        }
    }
}

/// Each topic of a table keeps its subscribers once each, and no topic is
/// kept without subscribers.
spec fn table_ok(t: Map<Seq<u8>, Seq<Seq<u8>>>) -> bool {
    forall|k: Seq<u8>| #[trigger] t.contains_key(k) ==> {
        &&& t[k].no_duplicates()
        &&& t[k].len() > 0
    }
}

/// Stores subscriptions.
///
/// Each topic's subscribers are kept in a list without repeats: a set of
/// byte strings would give no contract here, since vstd specifies `HashSet`
/// only for keys whose hashing it models (integers, `bool`, `char`), and
/// `Vec<u8>` is not one of them.
pub struct SubscriptionManager {
    inner: DashMap<Vec<u8>, Vec<Vec<u8>>>,
    public_topics: Vec<Vec<u8>>,
}

impl View for SubscriptionManager {
    type V = Map<Seq<u8>, Set<Seq<u8>>>;

    /// Each topic with its set of subscribed clients.
    closed spec fn view(&self) -> Map<Seq<u8>, Set<Seq<u8>>> {
        sets_of(topic_table(self.inner))
    }
}

impl SubscriptionManager {
    /// The topics that every client is subscribed to when it connects.
    pub closed spec fn public(&self) -> Seq<Seq<u8>> {
        views_of(self.public_topics@)
    }

    /// Each topic keeps its subscribers once each, and no topic is kept
    /// without subscribers.
    #[verifier::type_invariant]
    pub closed spec fn wf(&self) -> bool {
        table_ok(topic_table(self.inner))
    }

    /// A table without subscriptions.
    pub fn new(public_topics: Vec<Vec<u8>>) -> (m: SubscriptionManager)
        ensures
            m@ == Map::<Seq<u8>, Set<Seq<u8>>>::empty(),
            m.public() == views_of(public_topics@),
    {
        let m = SubscriptionManager { inner: new_topic_table(), public_topics };
        assert(m@ =~= Map::<Seq<u8>, Set<Seq<u8>>>::empty());
        m
    }

    /// Adds a subscription.
    pub fn subscribe(&mut self, topic: &[u8], client_id: Vec<u8>)
        ensures
            final(self).public() == old(self).public(),
            final(self)@ == old(self)@.insert(topic@, members_of(old(self)@, topic@).insert(client_id@)),
    {
        proof {
            use_type_invariant(&*self);
        }
        // The table is moved out while it changes, so that `self` holds a
        // well-formed (empty) table at every step.
        let mut table = new_topic_table();
        std::mem::swap(&mut table, &mut self.inner);
        let ghost before = topic_table(table);
        let mut members: Vec<Vec<u8>> = match topic_members(&table, topic) {
            Some(m) => m,
            None => Vec::new(),
        };
        let ghost old_members = views_of(members@);
        proof {
            if !before.contains_key(topic@) {
                assert(views_of(members@) =~= Seq::<Seq<u8>>::empty());
                assert(old_members.to_set() =~= Set::<Seq<u8>>::empty());
            }
        }
        let pos = position_of(&members, client_id.as_slice());
        if pos.is_none() {
            let ghost c = client_id@;
            members.push(client_id);
            proof {
                assert(views_of(members@) =~= old_members.push(c));
                assert(views_of(members@)[old_members.len() as int] == c);
                lemma_push_to_set(old_members, c);
            }
        } else {
            proof {
                let i = pos.unwrap() as int;
                assert(old_members[i] == client_id@);
                assert(old_members.to_set().contains(client_id@));
                assert(old_members.to_set().insert(client_id@) =~= old_members.to_set());
            }
        }
        set_topic_members(&mut table, vstd::slice::slice_to_vec(topic), members);
        proof {
            let after = topic_table(table);
            assert(after == before.insert(topic@, views_of(members@)));
            assert(views_of(members@).no_duplicates());
            assert(table_ok(after));
        }
        self.inner = table;
        assert(self@ =~= old(self)@.insert(topic@, members_of(old(self)@, topic@).insert(client_id@)));
    }

    /// The subscription table has no topic without subscribers.
    proof fn lemma_wf_view(&self)
        requires
            self.wf(),
        ensures
            no_empty_topics(self@),
            forall|t: Seq<u8>| #[trigger] self@.contains_key(t) ==> self@[t] == topic_table(self.inner)[t].to_set(),
    {
        assert forall|t: Seq<u8>| #[trigger] self@.contains_key(t) implies self@[t] != Set::<Seq<u8>>::empty() by {
            lemma_empty_to_set(topic_table(self.inner)[t]);
        }
    }

    /// Removes a subscription; a topic left without subscribers is dropped.
    pub fn unsubscribe(&mut self, topic: &[u8], client_id: Vec<u8>)
        ensures
            final(self).public() == old(self).public(),
            final(self)@ == drop_client(old(self)@, client_id@, |t: Seq<u8>| t == topic@),
    {
        let ghost before = topic_table(self.inner);
        proof {
            use_type_invariant(&*self);
            self.lemma_wf_view();
        }
        match topic_members(&self.inner, topic) {
            None => {
                assert(self@ =~= drop_client(old(self)@, client_id@, |t: Seq<u8>| t == topic@));
            },
            Some(members) => {
                let mut members = members;
                let ghost m0 = views_of(members@);
                assert(m0 == before[topic@]);
                let pos = position_of(&members, client_id.as_slice());
                match pos {
                    Some(i) => {
                        members.remove(i);
                        proof {
                            assert(views_of(members@) =~= m0.remove(i as int));
                            lemma_remove_to_set(m0, i as int);
                        }
                    },
                    None => {
                        assert(m0.to_set().remove(client_id@) =~= m0.to_set());
                    },
                }
                proof {
                    assert(views_of(members@).to_set() == m0.to_set().remove(client_id@));
                    lemma_empty_to_set(views_of(members@));
                }
                // As in `subscribe`, the table is moved out while it changes.
                let mut table = new_topic_table();
                std::mem::swap(&mut table, &mut self.inner);
                if members.len() == 0 {
                    remove_topic(&mut table, topic);
                } else {
                    set_topic_members(&mut table, vstd::slice::slice_to_vec(topic), members);
                }
                assert(table_ok(topic_table(table)));
                self.inner = table;
                assert(self@ =~= drop_client(old(self)@, client_id@, |t: Seq<u8>| t == topic@));
            },
        }
    }

    /// Subscribes a client to all public topics.
    pub fn subscribe_public(&mut self, client_id: Vec<u8>)
        ensures
            final(self).public() == old(self).public(),
            final(self)@ == add_client(old(self)@, client_id@, |t: Seq<u8>| old(self).public().contains(t)),
    {
        let ghost orig = self@;
        let ghost public = self.public();
        let n = self.public_topics.len();
        let mut i: usize = 0;
        assert(self@ =~= add_client(orig, client_id@, |t: Seq<u8>| public.take(0).contains(t)));
        while i < n
            invariant
                n == public.len(),
                i <= n,
                self.public() == public,
                self@ == add_client(orig, client_id@, |t: Seq<u8>| public.take(i as int).contains(t)),
            decreases n - i,
        {
            let topic = vstd::slice::slice_to_vec(self.public_topics[i].as_slice());
            let ghost p = topic@;
            assert(p == public[i as int]);
            let ghost cur = self@;
            self.subscribe(topic.as_slice(), vstd::slice::slice_to_vec(client_id.as_slice()));
            proof {
                lemma_take_one_more(public, i as int);
                let scope_i = |t: Seq<u8>| public.take(i as int).contains(t);
                if scope_i(p) {
                    assert(members_of(cur, p).insert(client_id@) =~= members_of(cur, p));
                }
                assert(self@ =~= add_client(orig, client_id@, |t: Seq<u8>| public.take(i + 1).contains(t)));
            }
            i = i + 1;
        }
        assert(public.take(n as int) =~= public);
    }

    /// Unsubscribes a client from all public topics.
    pub fn unsubscribe_public(&mut self, client_id: Vec<u8>)
        ensures
            final(self).public() == old(self).public(),
            final(self)@ == drop_client(old(self)@, client_id@, |t: Seq<u8>| old(self).public().contains(t)),
    {
        let ghost orig = self@;
        let ghost public = self.public();
        let n = self.public_topics.len();
        let mut i: usize = 0;
        assert(self@ =~= drop_client(orig, client_id@, |t: Seq<u8>| public.take(0).contains(t)));
        while i < n
            invariant
                n == public.len(),
                i <= n,
                self.public() == public,
                self@ == drop_client(orig, client_id@, |t: Seq<u8>| public.take(i as int).contains(t)),
            decreases n - i,
        {
            let topic = vstd::slice::slice_to_vec(self.public_topics[i].as_slice());
            let ghost p = topic@;
            assert(p == public[i as int]);
            let ghost cur = self@;
            self.unsubscribe(topic.as_slice(), vstd::slice::slice_to_vec(client_id.as_slice()));
            proof {
                lemma_take_one_more(public, i as int);
                if orig.contains_key(p) {
                    assert(orig[p].remove(client_id@).remove(client_id@) =~= orig[p].remove(client_id@));
                }
                assert(self@ =~= drop_client(orig, client_id@, |t: Seq<u8>| public.take(i + 1).contains(t)));
            }
            i = i + 1;
        }
        assert(public.take(n as int) =~= public);
    }

    /// Returns all clients that have subscribed to a topic, each once.
    pub fn clients_for_topic(&self, topic: &[u8]) -> (clients: Vec<Vec<u8>>)
        ensures
            views_of(clients@).no_duplicates(),
            views_of(clients@).to_set() == members_of(self@, topic@),
    {
        proof {
            use_type_invariant(self);
        }
        match topic_members(&self.inner, topic) {
            Some(m) => m,
            None => {
                let v: Vec<Vec<u8>> = Vec::new();
                assert(views_of(v@).to_set() =~= Set::<Seq<u8>>::empty());
                v
            },
        }
    }

    /// Returns a copy of the whole subscription table.
    pub fn all(&self) -> (table: DashMap<Vec<u8>, Vec<Vec<u8>>>)
        ensures
            sets_of(topic_table(table)) == self@,
    {
        clone_topic_table(&self.inner)
    }

    /// Unsubscribes a client from all topics: first the public ones, then
    /// every other topic that it is subscribed to.
    pub fn unsubscribe_all(&mut self, client_id: Vec<u8>)
        ensures
            final(self).public() == old(self).public(),
            final(self)@ == drop_client(old(self)@, client_id@, |t: Seq<u8>| true),
    {
        let ghost orig = self@;
        let ghost c = client_id@;
        self.unsubscribe_public(vstd::slice::slice_to_vec(client_id.as_slice()));
        let ghost s1 = self@;
        proof {
            use_type_invariant(&*self);
            self.lemma_wf_view();
            lemma_drop_then_drop_all(orig, c, |t: Seq<u8>| old(self).public().contains(t));
        }
        // the topics that the client is still subscribed to
        let keys = topic_keys(&self.inner);
        let mut chosen: Vec<Vec<u8>> = Vec::new();
        let mut i: usize = 0;
        while i < keys.len()
            invariant
                i <= keys@.len(),
                c == client_id@,
                self.public() == old(self).public(),
                self@ == s1,
                views_of(keys@).to_set() == s1.dom(),
                forall|t: Seq<u8>|
                    #![trigger views_of(chosen@).contains(t)]
                    #![trigger views_of(keys@).take(i as int).contains(t)]
                    views_of(chosen@).contains(t) <==> (views_of(keys@).take(i as int).contains(t)
                        && s1.contains_key(t) && s1[t].contains(c)),
            decreases keys@.len() - i,
        {
            let ghost k = keys@[i as int]@;
            assert(views_of(keys@)[i as int] == k);
            proof {
                use_type_invariant(&*self);
                self.lemma_wf_view();
            }
            let members = self.clients_for_topic(keys[i].as_slice());
            let pos = position_of(&members, client_id.as_slice());
            let ghost before = views_of(chosen@);
            proof {
                lemma_take_one_more(views_of(keys@), i as int);
            }
            let ghost ks = views_of(keys@);
            let ghost has_c = s1.contains_key(k) && s1[k].contains(c);
            match pos {
                Some(jj) => {
                    proof {
                        assert(views_of(members@)[jj as int] == c);
                        assert(views_of(members@).to_set().contains(c));
                        assert(ks.to_set().contains(k));
                        assert(has_c);
                    }
                    chosen.push(vstd::slice::slice_to_vec(keys[i].as_slice()));
                    proof {
                        assert(views_of(chosen@) =~= before.push(k));
                    }
                },
                None => {
                    proof {
                        if has_c {
                            assert(views_of(members@).to_set().contains(c));
                            assert(views_of(members@).contains(c));
                        }
                        assert(views_of(chosen@) == before);
                    }
                },
            }
            proof {
                assert(views_of(chosen@) == if has_c { before.push(k) } else { before });
                assert forall|t: Seq<u8>|
                    #![trigger views_of(chosen@).contains(t)]
                    #![trigger ks.take(i + 1).contains(t)]
                    views_of(chosen@).contains(t) <==> (ks.take(i + 1).contains(t) && s1.contains_key(t)
                        && s1[t].contains(c)) by {
                    let now = views_of(chosen@);
                    assert(ks.take(i + 1).contains(t) == (ks.take(i as int).contains(t) || t == k));
                    assert(before.contains(t) <==> (ks.take(i as int).contains(t) && s1.contains_key(t)
                        && s1[t].contains(c)));
                    if has_c {
                        assert(now.contains(t) == (before.contains(t) || t == k)) by {
                            if t == k {
                                assert(now[before.len() as int] == k);
                            }
                            if before.contains(t) {
                                let q = choose|q: int| 0 <= q < before.len() && before[q] == t;
                                assert(now[q] == t);
                            }
                            if now.contains(t) && t != k {
                                let q = choose|q: int| 0 <= q < now.len() && now[q] == t;
                                assert(before[q] == t);
                            }
                        }
                    }
                }
            }
            let ghost next = ks.take(i + 1);
            i = i + 1;
            assert(views_of(keys@).take(i as int) == next);
        }
        assert(views_of(keys@).take(keys@.len() as int) =~= views_of(keys@));
        // leave each of them
        let ghost ch = views_of(chosen@);
        let m = chosen.len();
        let mut j: usize = 0;
        assert(self@ =~= drop_client(s1, c, |t: Seq<u8>| ch.take(0).contains(t)));
        while j < m
            invariant
                m == chosen@.len(),
                j <= m,
                c == client_id@,
                self.public() == old(self).public(),
                ch == views_of(chosen@),
                self@ == drop_client(s1, c, |t: Seq<u8>| ch.take(j as int).contains(t)),
            decreases m - j,
        {
            let ghost p = chosen@[j as int]@;
            assert(ch[j as int] == p);
            self.unsubscribe(chosen[j].as_slice(), vstd::slice::slice_to_vec(client_id.as_slice()));
            proof {
                lemma_take_one_more(ch, j as int);
                if s1.contains_key(p) {
                    assert(s1[p].remove(c).remove(c) =~= s1[p].remove(c));
                }
                assert(self@ =~= drop_client(s1, c, |t: Seq<u8>| ch.take(j + 1).contains(t)));
            }
            j = j + 1;
        }
        proof {
            assert(ch.take(m as int) =~= ch);
            assert(self@ == drop_client(s1, c, |t: Seq<u8>| ch.contains(t)));
            lemma_drop_same_where_absent(s1, c, |t: Seq<u8>| ch.contains(t), |t: Seq<u8>| true);
        }
    }
}


/// A subscription table has no topic without subscribers (`wf` is the type's
/// invariant, so it holds of every table that a program holds).
pub proof fn law_no_empty_topics(m: &SubscriptionManager)
    requires
        m.wf(),
    ensures
        no_empty_topics(m@),
{
    m.lemma_wf_view();
}

} // verus!
