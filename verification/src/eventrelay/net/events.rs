//! What the relay does with each kind of frame that a connection sends:
//! the decisions, taken on the handler's tables. The network layer sends
//! what these functions return.

use vstd::prelude::*;
use crate::error::{ReplicashError, is_standard_error};
use crate::eventrelay::handler::{EventDelivery, EventHandler};
use crate::text::text_bytes;
use crate::eventrelay::subscriptions::{drop_client, members_of};
use crate::tlv::message::TLVMessage;
use crate::tlv::types::{EventType, FieldType};
use crate::tlv::wire::{decode_message, find_field, lookup_entry};

verus! {

/// The reply to a peer handshake frame (`SyncInit` or `SyncAck`).
pub enum SyncReply {
    /// The frame is malformed: this error message goes back to the connection.
    Rejected(TLVMessage),
    /// The connection is now the peer `peer_id`; the acknowledgement, if any,
    /// goes to the connection named with it.
    Registered { peer_id: Vec<u8>, ack: Option<(Vec<u8>, TLVMessage)> },
}

/// A message of the given type with one field.
pub open spec fn is_single_field_message(m: TLVMessage, et: EventType, field: FieldType, value: Seq<u8>) -> bool {
    &&& m.event() == et
    &&& m.entries() == seq![(field, value)]
    &&& m.well_formed()
}

/// The error message sent back for a handshake frame that holds no readable
/// peer id.
fn missing_peer_id(text: &str) -> (m: TLVMessage)
    ensures
        is_single_field_message(m, EventType::Error, FieldType::ErrorText, text_bytes(text@)),
{
    let mut m = TLVMessage::new(EventType::Error);
    m.insert_field(FieldType::ErrorText, vstd::slice::slice_to_vec(text.as_bytes()));
    proof {
        crate::tlv::wire::lemma_entry_position(Seq::empty(), FieldType::ErrorText);
        assert(m.entries() =~= seq![(FieldType::ErrorText, text_bytes(text@))]);
    }
    m
}

/// The connection `client_id` becomes the peer `id`: it leaves the public
/// topics and is registered as a peer.
fn register_as_peer(handler: &mut EventHandler, client_id: &Vec<u8>, id: &[u8])
    ensures
        final(handler).public_topics == old(handler).public_topics,
        final(handler).subscriptions.public() == old(handler).subscriptions.public(),
        final(handler).subscriptions@ == drop_client(
            old(handler).subscriptions@,
            client_id@,
            |t: Seq<u8>| old(handler).subscriptions.public().contains(t),
        ),
        final(handler).clients.peers() == old(handler).clients.peers().insert(id@, client_id@),
        final(handler).clients.clients() == old(handler).clients.clients(),
{
    handler.handle_unsubscribe_public(vstd::slice::slice_to_vec(client_id.as_slice()));
    handler.clients.register_peer(vstd::slice::slice_to_vec(id), vstd::slice::slice_to_vec(client_id.as_slice()));
}

/// The effect of a handshake that names the peer `id` on connection `client_id`.
pub open spec fn registered_peer(old_h: EventHandler, new_h: EventHandler, client_id: Seq<u8>, id: Seq<u8>) -> bool {
    &&& new_h.public_topics == old_h.public_topics
    &&& new_h.subscriptions.public() == old_h.subscriptions.public()
    &&& new_h.subscriptions@ == drop_client(
        old_h.subscriptions@,
        client_id,
        |t: Seq<u8>| old_h.subscriptions.public().contains(t),
    )
    &&& new_h.clients.peers() == old_h.clients.peers().insert(id, client_id)
    &&& new_h.clients.clients() == old_h.clients.clients()
}

/// Handles a `SyncInit` frame from connection `client_id`: the peer named by
/// its `Key` field is registered on this connection and acknowledged with a
/// `SyncAck` carrying the same id.
pub fn handle_sync_init(handler: &mut EventHandler, client_id: Vec<u8>, msg: &[u8]) -> (r: SyncReply)
    ensures
        match find_field(msg@, FieldType::Key) {
            Err(_) => {
                &&& *final(handler) == *old(handler)
                &&& r matches SyncReply::Rejected(m) && is_single_field_message(
                    m,
                    EventType::Error,
                    FieldType::ErrorText,
                    text_bytes("Missing peer ID in SyncInit message"@),
                )
            },
            Ok(id) => {
                &&& registered_peer(*old(handler), *final(handler), client_id@, id)
                &&& r matches SyncReply::Registered { peer_id, ack: Some((to, m)) }
                &&& peer_id@ == id
                &&& to@ == client_id@
                &&& is_single_field_message(m, EventType::SyncAck, FieldType::Key, id)
            },
        },
{
    let id = match TLVMessage::extract_field(msg, FieldType::Key) {
        Ok(id) => id,
        Err(_) => {
            return SyncReply::Rejected(missing_peer_id("Missing peer ID in SyncInit message"));
        },
    };
    register_as_peer(handler, &client_id, id);
    let mut ack = TLVMessage::new(EventType::SyncAck);
    ack.insert_field(FieldType::Key, vstd::slice::slice_to_vec(id));
    proof {
        crate::tlv::wire::lemma_entry_position(Seq::empty(), FieldType::Key);
        assert(ack.entries() =~= seq![(FieldType::Key, id@)]);
    }
    let ack_to = match handler.clients.get_peer(id) {
        Some(conn) => Some((conn, ack)),
        None => None,
    };
    SyncReply::Registered { peer_id: vstd::slice::slice_to_vec(id), ack: ack_to }
}

/// Handles a `SyncAck` frame from connection `client_id`: the peer named by
/// its `Key` field is registered on this connection.
pub fn handle_sync_ack(handler: &mut EventHandler, client_id: Vec<u8>, msg: &[u8]) -> (r: SyncReply)
    ensures
        match find_field(msg@, FieldType::Key) {
            Err(_) => {
                &&& *final(handler) == *old(handler)
                &&& r matches SyncReply::Rejected(m) && is_single_field_message(
                    m,
                    EventType::Error,
                    FieldType::ErrorText,
                    text_bytes("Missing peer ID in SyncAck message"@),
                )
            },
            Ok(id) => {
                &&& registered_peer(*old(handler), *final(handler), client_id@, id)
                &&& r matches SyncReply::Registered { peer_id, ack: None }
                &&& peer_id@ == id
            },
        },
{
    let id = match TLVMessage::extract_field(msg, FieldType::Key) {
        Ok(id) => id,
        Err(_) => {
            return SyncReply::Rejected(missing_peer_id("Missing peer ID in SyncAck message"));
        },
    };
    register_as_peer(handler, &client_id, id);
    SyncReply::Registered { peer_id: vstd::slice::slice_to_vec(id), ack: None }
}

/// Handles a `Subscribe` frame: connection `client_id` subscribes to the
/// topic in its `Key` field. Returns whether the frame named a topic.
pub fn handle_subscribe(handler: &mut EventHandler, client_id: Vec<u8>, msg: &[u8]) -> (applied: bool)
    ensures
        match find_field(msg@, FieldType::Key) {
            Err(_) => !applied && *final(handler) == *old(handler),
            Ok(topic) => {
                &&& applied
                &&& final(handler).clients == old(handler).clients
                &&& final(handler).public_topics == old(handler).public_topics
                &&& final(handler).subscriptions.public() == old(handler).subscriptions.public()
                &&& final(handler).subscriptions@ == old(handler).subscriptions@.insert(
                    topic,
                    members_of(old(handler).subscriptions@, topic).insert(client_id@),
                )
            },
        },
{
    match TLVMessage::extract_field(msg, FieldType::Key) {
        Ok(topic) => {
            handler.handle_subscribe(topic, client_id);
            true
        },
        Err(_) => false,
    }
}

/// Handles an unsubscribe frame: connection `client_id` leaves the topic in
/// its `Key` field. Returns whether the frame named a topic.
pub fn handle_unsubscribe(handler: &mut EventHandler, client_id: Vec<u8>, msg: &[u8]) -> (applied: bool)
    ensures
        match find_field(msg@, FieldType::Key) {
            Err(_) => !applied && *final(handler) == *old(handler),
            Ok(topic) => {
                &&& applied
                &&& final(handler).clients == old(handler).clients
                &&& final(handler).public_topics == old(handler).public_topics
                &&& final(handler).subscriptions.public() == old(handler).subscriptions.public()
                &&& final(handler).subscriptions@ == drop_client(
                    old(handler).subscriptions@,
                    client_id@,
                    |t: Seq<u8>| t == topic,
                )
            },
        },
{
    match TLVMessage::extract_field(msg, FieldType::Key) {
        Ok(topic) => {
            handler.handle_unsubscribe(topic, client_id);
            true
        },
        Err(_) => false,
    }
}

/// What becomes of an `Event` frame.
pub enum EventOutcome {
    /// The frame does not parse.
    Unparsable(ReplicashError),
    /// The message names no topic (it has no `Key` field).
    MissingTopic,
    /// The message goes where the delivery says.
    Deliver { msg: TLVMessage, delivery: EventDelivery },
}

/// Handles an `Event` frame from connection `client_id`: the parsed message
/// goes to the subscribers of the topic in its `Key` field. An event from a
/// peer is not forwarded to the peers again; an event from a client is not
/// sent back to that client.
pub fn handle_event(handler: &EventHandler, client_id: Vec<u8>, is_peer: bool, raw_msg: &[u8]) -> (r: EventOutcome)
    ensures
        match decode_message(raw_msg@) {
            Err((c, t)) => r matches EventOutcome::Unparsable(e) && is_standard_error(e, c, t),
            Ok((et, fs)) => match lookup_entry(fs, FieldType::Key) {
                None => r is MissingTopic,
                Some(topic) => r matches EventOutcome::Deliver { msg, delivery }
                    && msg.event() == et && msg.entries() == fs
                    && handler.delivers(
                        topic,
                        if is_peer { Some(client_id@) } else { None },
                        if is_peer { None } else { Some(client_id@) },
                        &delivery,
                    ),
            },
        },
{
    let msg = match TLVMessage::parse(raw_msg) {
        Ok(m) => m,
        Err(e) => {
            return EventOutcome::Unparsable(e);
        },
    };
    let delivery = match msg.get_field(FieldType::Key) {
        Some(topic) => {
            if is_peer {
                handler.handle_event(topic.as_slice(), Some(client_id), None)
            } else {
                handler.handle_event(topic.as_slice(), None, Some(client_id))
            }
        },
        None => {
            return EventOutcome::MissingTopic;
        },
    };
    EventOutcome::Deliver { msg, delivery }
}

} // verus!
