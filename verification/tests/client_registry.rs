use std::cell::RefCell;
use std::rc::Rc;

use eventrelay::eventrelay::client::{ClientRegistry, ClientSender};
use eventrelay::tlv::message::TLVMessage;
use eventrelay::tlv::types::EventType;

struct Recorder {
    id: u64,
    log: Rc<RefCell<Vec<u64>>>,
}

impl ClientSender for Recorder {
    fn send(&self, _msg: &TLVMessage) {
        self.log.borrow_mut().push(self.id);
    }
}

fn registry(log: &Rc<RefCell<Vec<u64>>>) -> ClientRegistry<Recorder> {
    let mut r = ClientRegistry::new();
    for id in [1u64, 2, 3] {
        r.register(id, Recorder { id, log: log.clone() });
    }
    r
}

#[test]
fn send_to_skips_unknown_clients() {
    let log = Rc::new(RefCell::new(Vec::new()));
    let r = registry(&log);
    let msg = TLVMessage::new(EventType::Event);
    assert_eq!(r.send_to(&[3, 9, 1], &msg), vec![3, 1]);
    assert_eq!(*log.borrow(), vec![3, 1]);
}

#[test]
fn send_to_except_skips_excluded() {
    let log = Rc::new(RefCell::new(Vec::new()));
    let r = registry(&log);
    let msg = TLVMessage::new(EventType::Event);
    assert_eq!(r.send_to_except(&[1, 2, 3], &msg, Some(2)), vec![1, 3]);
    assert_eq!(r.send_to_except(&[1, 2], &msg, None), vec![1, 2]);
    assert_eq!(*log.borrow(), vec![1, 3, 1, 2]);
}

#[test]
fn broadcast_reaches_every_registered_client() {
    let log = Rc::new(RefCell::new(Vec::new()));
    let mut r = registry(&log);
    let msg = TLVMessage::new(EventType::Event);
    let mut sent = r.broadcast(&msg);
    sent.sort();
    assert_eq!(sent, vec![1, 2, 3]);
    let mut sent = r.broadcast_except(&msg, Some(1));
    sent.sort();
    assert_eq!(sent, vec![2, 3]);
    r.unregister(2);
    let mut sent = r.broadcast_except(&msg, None);
    sent.sort();
    assert_eq!(sent, vec![1, 3]);
    assert_eq!(log.borrow().len(), 7);
}

#[test]
fn register_replaces_the_earlier_sender() {
    let log = Rc::new(RefCell::new(Vec::new()));
    let mut r = registry(&log);
    r.register(2, Recorder { id: 20, log: log.clone() });
    let msg = TLVMessage::new(EventType::Event);
    assert_eq!(r.send_to(&[2], &msg), vec![2]);
    assert_eq!(*log.borrow(), vec![20]);
    r.unregister(2);
    assert_eq!(r.send_to(&[2], &msg), Vec::<u64>::new());
    assert_eq!(*log.borrow(), vec![20]);
}
