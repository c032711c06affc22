use eventrelay::eventrelay::broadcaster::ConnectionRegistry;
use eventrelay::eventrelay::handler::EventHandler;
use eventrelay::eventrelay::subscriptions::SubscriptionManager;

fn sorted(mut v: Vec<(Vec<u8>, Vec<u8>)>) -> Vec<(Vec<u8>, Vec<u8>)> {
    v.sort();
    v
}

fn handler() -> EventHandler {
    let public = vec![b"general".to_vec()];
    let mut h = EventHandler::new(SubscriptionManager::new(public.clone()), ConnectionRegistry::new(), public);
    for c in [b"c1", b"c2", b"c3"] {
        h.clients.register_client(c.to_vec(), c.to_vec());
    }
    h.clients.register_peer(b"server2".to_vec(), b"k2".to_vec());
    h.handle_subscribe(b"chat", b"c1".to_vec());
    h.handle_subscribe(b"chat", b"c2".to_vec());
    h.handle_subscribe(b"chat", b"ghost".to_vec());
    h
}

#[test]
fn client_event_goes_to_other_subscribers_and_peers() {
    let h = handler();
    let d = h.handle_event(b"chat", None, Some(b"c1".to_vec()));
    assert_eq!(d.to_clients, vec![(b"c2".to_vec(), b"c2".to_vec())]);
    assert_eq!(d.to_peers, vec![(b"server2".to_vec(), b"k2".to_vec())]);
}

#[test]
fn peer_event_is_not_forwarded_to_peers() {
    let h = handler();
    let d = h.handle_event(b"chat", Some(b"server2".to_vec()), None);
    assert_eq!(sorted(d.to_clients), vec![(b"c1".to_vec(), b"c1".to_vec()), (b"c2".to_vec(), b"c2".to_vec())]);
    assert!(d.to_peers.is_empty());
}

#[test]
fn event_on_unknown_topic_reaches_only_peers() {
    let h = handler();
    let d = h.handle_event(b"silence", None, Some(b"c3".to_vec()));
    assert!(d.to_clients.is_empty());
    assert_eq!(d.to_peers.len(), 1);
}

#[test]
fn public_subscription_through_handler() {
    let mut h = handler();
    h.handle_subscribe_public(b"c3".to_vec());
    let d = h.handle_event(b"general", Some(b"server2".to_vec()), None);
    assert_eq!(d.to_clients, vec![(b"c3".to_vec(), b"c3".to_vec())]);
    h.handle_unsubscribe_public(b"c3".to_vec());
    assert!(h.handle_event(b"general", Some(b"server2".to_vec()), None).to_clients.is_empty());
    h.handle_unsubscribe(b"chat", b"c2".to_vec());
    assert!(h.handle_event(b"chat", None, Some(b"c1".to_vec())).to_clients.is_empty());
}

#[test]
fn disconnect_cleans_up_client_or_peer() {
    let mut h = handler();
    h.handle_client_disconnect(b"c1".to_vec());
    assert!(!h.clients.contains_client(b"c1"));
    assert_eq!(h.subscriptions.clients_for_topic(b"chat").len(), 2);
    assert!(h.clients.contains_peer(b"server2"));
    h.handle_client_disconnect(b"server2".to_vec());
    assert!(!h.clients.contains_peer(b"server2"));
    assert!(h.clients.contains_client(b"c2"));
}

#[test]
fn disconnected_client_gets_no_events() {
    let mut h = handler();
    h.handle_client_disconnect(b"c2".to_vec());
    h.clients.register_client(b"c2".to_vec(), b"c2".to_vec());
    let d = h.handle_event(b"chat", None, None);
    assert_eq!(d.to_clients, vec![(b"c1".to_vec(), b"c1".to_vec())]);
}
