use eventrelay::error::ErrorCode;
use eventrelay::eventrelay::broadcaster::ConnectionRegistry;
use eventrelay::eventrelay::config::ServerConfig;
use eventrelay::eventrelay::handler::EventHandler;
use eventrelay::eventrelay::net::connection::{frame_body_len, route_frame, FrameRoute};
use eventrelay::eventrelay::net::connector::sync_init_message;
use eventrelay::eventrelay::net::events::{
    handle_event, handle_subscribe, handle_sync_ack, handle_sync_init, handle_unsubscribe, EventOutcome, SyncReply,
};
use eventrelay::eventrelay::net::reconnector::{reconnect_step, should_attempt_reconnection, ReconnectStep};
use eventrelay::eventrelay::subscriptions::SubscriptionManager;
use eventrelay::eventrelay::{peer_list, public_channel_topics};
use eventrelay::tlv::message::TLVMessage;
use eventrelay::tlv::types::{EventType, FieldType};

fn handler() -> EventHandler {
    let public = vec![b"general".to_vec()];
    let mut h = EventHandler::new(SubscriptionManager::new(public.clone()), ConnectionRegistry::new(), public);
    h.clients.register_client(b"conn1".to_vec(), b"conn1".to_vec());
    h.handle_subscribe_public(b"conn1".to_vec());
    h
}

fn frame(et: EventType, key: Option<&[u8]>) -> Vec<u8> {
    let mut m = TLVMessage::new(et);
    if let Some(k) = key {
        m.insert_field(FieldType::Key, k.to_vec());
    }
    m.encode()
}

#[test]
fn sync_init_registers_peer_and_acknowledges() {
    let mut h = handler();
    let reply = handle_sync_init(&mut h, b"conn1".to_vec(), &frame(EventType::SyncInit, Some(b"server9")));
    match reply {
        SyncReply::Registered { peer_id, ack: Some((to, ack)) } => {
            assert_eq!(peer_id, b"server9".to_vec());
            assert_eq!(to, b"conn1".to_vec());
            assert_eq!(ack.event_type, EventType::SyncAck);
            assert_eq!(ack.get_field(FieldType::Key), Some(&b"server9".to_vec()));
        }
        _ => panic!("expected a registration with an acknowledgement"),
    }
    assert_eq!(h.clients.get_peer(b"server9"), Some(b"conn1".to_vec()));
    assert!(h.subscriptions.clients_for_topic(b"general").is_empty());
}

#[test]
fn sync_init_without_key_registers_empty_id() {
    let mut h = handler();
    let reply = handle_sync_init(&mut h, b"conn1".to_vec(), &frame(EventType::SyncInit, None));
    assert!(matches!(reply, SyncReply::Registered { ref peer_id, ack: Some(_) } if peer_id.is_empty()));
    assert!(h.clients.contains_peer(b""));
}

#[test]
fn malformed_sync_init_is_rejected() {
    let mut h = handler();
    let reply = handle_sync_init(&mut h, b"conn1".to_vec(), &[0, 0, 0, 2]);
    match reply {
        SyncReply::Rejected(m) => {
            assert_eq!(m.event_type, EventType::Error);
            assert_eq!(
                m.get_field(FieldType::ErrorText),
                Some(&b"Missing peer ID in SyncInit message".to_vec())
            );
        }
        _ => panic!("expected a rejection"),
    }
    assert!(!h.clients.contains_peer(b""));
    assert_eq!(h.subscriptions.clients_for_topic(b"general"), vec![b"conn1".to_vec()]);
}

#[test]
fn sync_ack_registers_without_reply() {
    let mut h = handler();
    let reply = handle_sync_ack(&mut h, b"conn1".to_vec(), &frame(EventType::SyncAck, Some(b"server3")));
    assert!(matches!(reply, SyncReply::Registered { ref peer_id, ack: None } if peer_id == b"server3"));
    assert!(h.clients.contains_peer(b"server3"));
    let reply = handle_sync_ack(&mut h, b"conn1".to_vec(), &[1]);
    match reply {
        SyncReply::Rejected(m) => assert_eq!(
            m.get_field(FieldType::ErrorText),
            Some(&b"Missing peer ID in SyncAck message".to_vec())
        ),
        _ => panic!("expected a rejection"),
    }
}

#[test]
fn subscribe_and_unsubscribe_frames() {
    let mut h = handler();
    assert!(handle_subscribe(&mut h, b"conn1".to_vec(), &frame(EventType::Subscribe, Some(b"chat"))));
    assert_eq!(h.subscriptions.clients_for_topic(b"chat"), vec![b"conn1".to_vec()]);
    assert!(handle_unsubscribe(&mut h, b"conn1".to_vec(), &frame(EventType::Subscribe, Some(b"chat"))));
    assert!(h.subscriptions.clients_for_topic(b"chat").is_empty());
    assert!(!handle_subscribe(&mut h, b"conn1".to_vec(), &[0, 0]));
    assert!(!handle_unsubscribe(&mut h, b"conn1".to_vec(), &[0, 0]));
}

#[test]
fn event_frames_are_delivered() {
    let mut h = handler();
    h.clients.register_client(b"conn2".to_vec(), b"conn2".to_vec());
    h.handle_subscribe(b"chat", b"conn2".to_vec());
    h.clients.register_peer(b"server2".to_vec(), b"conn7".to_vec());
    match handle_event(&h, b"conn1".to_vec(), false, &frame(EventType::Event, Some(b"chat"))) {
        EventOutcome::Deliver { msg, delivery } => {
            assert_eq!(msg.get_field(FieldType::Key), Some(&b"chat".to_vec()));
            assert_eq!(delivery.to_clients, vec![(b"conn2".to_vec(), b"conn2".to_vec())]);
            assert_eq!(delivery.to_peers, vec![(b"server2".to_vec(), b"conn7".to_vec())]);
        }
        _ => panic!("expected a delivery"),
    }
    match handle_event(&h, b"conn7".to_vec(), true, &frame(EventType::Event, Some(b"chat"))) {
        EventOutcome::Deliver { delivery, .. } => assert!(delivery.to_peers.is_empty()),
        _ => panic!("expected a delivery"),
    }
    assert!(matches!(
        handle_event(&h, b"conn1".to_vec(), false, &frame(EventType::Event, None)),
        EventOutcome::MissingTopic
    ));
    match handle_event(&h, b"conn1".to_vec(), false, &[0, 0, 0, 5, 0x77]) {
        EventOutcome::Unparsable(e) => assert_eq!(e.code(), Some(ErrorCode::InvalidEventType)),
        _ => panic!("expected a parse error"),
    }
}

#[test]
fn frames_are_routed_by_event_type() {
    assert_eq!(route_frame(&frame(EventType::SyncInit, None)).unwrap(), FrameRoute::SyncInit);
    assert_eq!(route_frame(&frame(EventType::SyncAck, None)).unwrap(), FrameRoute::SyncAck);
    assert_eq!(route_frame(&frame(EventType::Subscribe, None)).unwrap(), FrameRoute::Subscribe);
    assert_eq!(route_frame(&frame(EventType::Event, None)).unwrap(), FrameRoute::Event);
    let e = route_frame(&frame(EventType::Get, None)).unwrap_err();
    assert_eq!(e.code(), Some(ErrorCode::InvalidEventType));
    assert_eq!(e.message(), "Unknown EventType");
    let e = route_frame(&[0, 0, 0, 5]).unwrap_err();
    assert_eq!(e.message(), "Buffer too short");
}

#[test]
fn frame_length_counts_header() {
    assert_eq!(frame_body_len(&[0, 0, 0, 14]), Some(10));
    assert_eq!(frame_body_len(&[0, 0, 1, 0]), Some(252));
    assert_eq!(frame_body_len(&[0, 0, 0, 4]), Some(0));
    assert_eq!(frame_body_len(&[0, 0, 0, 3]), None);
}

#[test]
fn sync_init_message_names_server() {
    let m = sync_init_message("server1");
    assert_eq!(m.event_type, EventType::SyncInit);
    assert_eq!(m.get_field(FieldType::Key), Some(&b"server1".to_vec()));
    assert_eq!(m.encode().len(), 5 + 5 + 7);
}

#[test]
fn lower_id_reconnects() {
    assert!(should_attempt_reconnection("server1", "server2"));
    assert!(!should_attempt_reconnection("server2", "server1"));
    assert!(!should_attempt_reconnection("server1", "server1"));
    assert!(should_attempt_reconnection("peer", "peer-1"));
    assert!(!should_attempt_reconnection("b", "ab"));
    assert!(should_attempt_reconnection("", "a"));
}

#[test]
fn reconnect_steps() {
    let mut r = ConnectionRegistry::new();
    r.register_peer(b"peer-127.0.0.1:8081".to_vec(), b"k".to_vec());
    assert_eq!(reconnect_step(&r, "server1", "peer-127.0.0.1:8081"), ReconnectStep::Connected);
    assert_eq!(reconnect_step(&r, "aaa", "peer-127.0.0.1:8082"), ReconnectStep::Attempt);
    assert_eq!(reconnect_step(&r, "server1", "peer-127.0.0.1:8082"), ReconnectStep::Wait);
}

#[test]
fn configuration_lists() {
    let config = ServerConfig {
        id: "server1".to_string(),
        addr: "127.0.0.1:8080".to_string(),
        peers: vec!["127.0.0.1:8081".to_string(), "127.0.0.1:8082".to_string()],
        public_channels: vec!["announcements".to_string(), "general".to_string()],
    };
    assert_eq!(public_channel_topics(&config), vec![b"announcements".to_vec(), b"general".to_vec()]);
    assert_eq!(
        peer_list(&config),
        vec![
            ("peer-127.0.0.1:8081".to_string(), "127.0.0.1:8081".to_string()),
            ("peer-127.0.0.1:8082".to_string(), "127.0.0.1:8082".to_string()),
        ]
    );
}
