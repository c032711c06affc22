use eventrelay::eventrelay::broadcaster::ConnectionRegistry;

fn sorted(mut v: Vec<(Vec<u8>, Vec<u8>)>) -> Vec<(Vec<u8>, Vec<u8>)> {
    v.sort();
    v
}

#[test]
fn register_then_find() {
    let mut r = ConnectionRegistry::new();
    r.register_peer(b"server2".to_vec(), b"conn-a".to_vec());
    r.register_client(b"conn-b".to_vec(), b"conn-b".to_vec());
    assert!(r.contains_peer(b"server2"));
    assert!(!r.contains_client(b"server2"));
    assert!(r.contains_client(b"conn-b"));
    assert_eq!(r.get_peer(b"server2"), Some(b"conn-a".to_vec()));
    assert_eq!(r.get_client(b"conn-b"), Some(b"conn-b".to_vec()));
    assert_eq!(r.get_peer(b"server3"), None);
    r.register_peer(b"server2".to_vec(), b"conn-c".to_vec());
    assert_eq!(r.get_peer(b"server2"), Some(b"conn-c".to_vec()));
    r.unregister_peer(b"server2");
    assert!(!r.contains_peer(b"server2"));
    r.unregister_client(b"conn-b");
    assert_eq!(r.get_client(b"conn-b"), None);
}

#[test]
fn broadcast_reaches_all_but_excluded() {
    let mut r = ConnectionRegistry::new();
    r.register_peer(b"p1".to_vec(), b"k1".to_vec());
    r.register_peer(b"p2".to_vec(), b"k2".to_vec());
    r.register_peer(b"p3".to_vec(), b"k3".to_vec());
    r.register_client(b"c1".to_vec(), b"c1".to_vec());
    assert_eq!(
        sorted(r.broadcast_to_peers(None)),
        vec![
            (b"p1".to_vec(), b"k1".to_vec()),
            (b"p2".to_vec(), b"k2".to_vec()),
            (b"p3".to_vec(), b"k3".to_vec()),
        ]
    );
    assert_eq!(
        sorted(r.broadcast_to_peers(Some(b"p2".to_vec()))),
        vec![(b"p1".to_vec(), b"k1".to_vec()), (b"p3".to_vec(), b"k3".to_vec())]
    );
    assert_eq!(r.broadcast_to_clients(None), vec![(b"c1".to_vec(), b"c1".to_vec())]);
    assert!(r.broadcast_to_clients(Some(b"c1".to_vec())).is_empty());
}
