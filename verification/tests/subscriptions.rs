use eventrelay::eventrelay::subscriptions::SubscriptionManager;

fn sorted(mut v: Vec<Vec<u8>>) -> Vec<Vec<u8>> {
    v.sort();
    v
}

fn manager() -> SubscriptionManager {
    SubscriptionManager::new(vec![b"general".to_vec(), b"news".to_vec()])
}

#[test]
fn subscribe_adds_client_once() {
    let mut m = manager();
    m.subscribe(b"chat", b"c1".to_vec());
    m.subscribe(b"chat", b"c2".to_vec());
    m.subscribe(b"chat", b"c1".to_vec());
    assert_eq!(sorted(m.clients_for_topic(b"chat")), vec![b"c1".to_vec(), b"c2".to_vec()]);
    assert!(m.clients_for_topic(b"other").is_empty());
}

#[test]
fn unsubscribe_removes_client_and_empty_topic() {
    let mut m = manager();
    m.subscribe(b"chat", b"c1".to_vec());
    m.subscribe(b"chat", b"c2".to_vec());
    m.unsubscribe(b"chat", b"c1".to_vec());
    assert_eq!(m.clients_for_topic(b"chat"), vec![b"c2".to_vec()]);
    m.unsubscribe(b"chat", b"c2".to_vec());
    assert!(m.clients_for_topic(b"chat").is_empty());
    assert!(!m.all().contains_key(b"chat".as_slice()));
    m.unsubscribe(b"nothing", b"c2".to_vec());
    assert_eq!(m.all().len(), 0);
}

#[test]
fn unsubscribe_undoes_new_subscription() {
    let mut m = manager();
    m.subscribe(b"chat", b"c1".to_vec());
    m.subscribe(b"chat", b"c2".to_vec());
    m.unsubscribe(b"chat", b"c2".to_vec());
    let all = m.all();
    assert_eq!(all.len(), 1);
    assert_eq!(all.get(b"chat".as_slice()).unwrap().value().clone(), vec![b"c1".to_vec()]);
}

#[test]
fn public_topics_subscribe_and_unsubscribe() {
    let mut m = manager();
    m.subscribe_public(b"c1".to_vec());
    m.subscribe_public(b"c2".to_vec());
    assert_eq!(sorted(m.clients_for_topic(b"general")), vec![b"c1".to_vec(), b"c2".to_vec()]);
    assert_eq!(sorted(m.clients_for_topic(b"news")), vec![b"c1".to_vec(), b"c2".to_vec()]);
    m.unsubscribe_public(b"c1".to_vec());
    assert_eq!(m.clients_for_topic(b"general"), vec![b"c2".to_vec()]);
    m.unsubscribe_public(b"c2".to_vec());
    assert_eq!(m.all().len(), 0);
}

#[test]
fn unsubscribe_all_leaves_no_trace() {
    let mut m = manager();
    m.subscribe_public(b"c1".to_vec());
    m.subscribe(b"chat", b"c1".to_vec());
    m.subscribe(b"chat", b"c2".to_vec());
    m.subscribe(b"solo", b"c1".to_vec());
    m.unsubscribe_all(b"c1".to_vec());
    let all = m.all();
    assert_eq!(all.len(), 1);
    assert_eq!(m.clients_for_topic(b"chat"), vec![b"c2".to_vec()]);
    assert!(m.clients_for_topic(b"general").is_empty());
    assert!(m.clients_for_topic(b"solo").is_empty());
}
