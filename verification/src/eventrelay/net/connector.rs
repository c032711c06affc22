//! What a server sends first on a connection it opens to a peer.

use vstd::prelude::*;
use crate::eventrelay::net::events::is_single_field_message;
use crate::text::text_bytes;
use crate::tlv::message::TLVMessage;
use crate::tlv::types::{EventType, FieldType};

verus! {

/// The `SyncInit` message that introduces this server, by its id, to a peer.
pub fn sync_init_message(self_id: &str) -> (m: TLVMessage)
    ensures
        is_single_field_message(m, EventType::SyncInit, FieldType::Key, text_bytes(self_id@)),
{
    let mut m = TLVMessage::new(EventType::SyncInit);
    m.insert_field(FieldType::Key, vstd::slice::slice_to_vec(self_id.as_bytes()));
    proof {
        crate::tlv::wire::lemma_entry_position(Seq::empty(), FieldType::Key);
        assert(m.entries() =~= seq![(FieldType::Key, text_bytes(self_id@))]);
    }
    m
}

} // verus!
